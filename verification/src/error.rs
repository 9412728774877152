//! The gateway's error type. Failures coming out of outside libraries
//! (file reading, YAML and JSON decoding, HTTP transport) are carried
//! as their rendered messages, so every variant holds plain values.

use vstd::prelude::*;
use crate::text::{dec_rep, u64_to_dec};

verus! {

/// Every failure the gateway can report.
#[derive(Debug)]
pub enum FeatherGateError {
    /// A configuration file was rejected.
    ConfigError(String),
    /// Reading a file failed; holds the rendered I/O error.
    IoError(String),
    /// A configuration file was not valid YAML; holds the rendered error.
    YamlError(String),
    /// A body was not valid JSON; holds the rendered error.
    JsonError(String),
    /// An HTTP call failed below the protocol; holds the rendered error.
    HttpError(String),
    /// No registry entry matches the requested model name.
    ModelNotFound(String),
    /// The provider tag of a model string names no known adapter.
    UnsupportedProvider(String),
    /// A model string is not of the form `provider/model-id`.
    InvalidModelString(String),
    /// The upstream provider answered with a non-success status.
    UpstreamError { status: u16, message: String },
    /// An invariant did not hold (for example, an upstream response
    /// with no candidates).
    InternalError(String),
}

impl FeatherGateError {
    /// Wraps a message as a configuration error.
    pub fn config(msg: String) -> (e: FeatherGateError)
        ensures
            e == FeatherGateError::ConfigError(msg),
    {
        FeatherGateError::ConfigError(msg)
    }

    /// Wraps a message as an internal error.
    pub fn internal(msg: String) -> (e: FeatherGateError)
        ensures
            e == FeatherGateError::InternalError(msg),
    {
        FeatherGateError::InternalError(msg)
    }

    /// Wraps an upstream status and body excerpt as an upstream error.
    pub fn upstream(status: u16, message: String) -> (e: FeatherGateError)
        ensures
            e == (FeatherGateError::UpstreamError { status, message }),
    {
        FeatherGateError::UpstreamError { status, message }
    }

    /// The rendered message of this error.
    pub open spec fn message_spec(&self) -> Seq<char> {
        match self {
            FeatherGateError::ConfigError(m) => "配置错误: "@ + m@,
            FeatherGateError::IoError(m) => "IO 错误: "@ + m@,
            FeatherGateError::YamlError(m) => "YAML 解析错误: "@ + m@,
            FeatherGateError::JsonError(m) => "JSON 解析错误: "@ + m@,
            FeatherGateError::HttpError(m) => "HTTP 请求错误: "@ + m@,
            FeatherGateError::ModelNotFound(m) => "模型未找到: "@ + m@,
            FeatherGateError::UnsupportedProvider(m) => "提供商不支持: "@ + m@,
            FeatherGateError::InvalidModelString(m) => "无效的模型字符串: "@ + m@,
            FeatherGateError::UpstreamError { status, message } =>
                "上游 API 错误: "@ + dec_rep(*status as int) + " - "@ + message@,
            FeatherGateError::InternalError(m) => "内部错误: "@ + m@,
        }
    }

    /// Renders this error as a human-readable message.
    pub fn message(&self) -> (r: String)
        ensures
            r@ == self.message_spec(),
    {
        match self {
            FeatherGateError::ConfigError(m) => {
                let mut s = String::from_str("配置错误: ");
                s.append(m.as_str());
                s
            }
            FeatherGateError::IoError(m) => {
                let mut s = String::from_str("IO 错误: ");
                s.append(m.as_str());
                s
            }
            FeatherGateError::YamlError(m) => {
                let mut s = String::from_str("YAML 解析错误: ");
                s.append(m.as_str());
                s
            }
            FeatherGateError::JsonError(m) => {
                let mut s = String::from_str("JSON 解析错误: ");
                s.append(m.as_str());
                s
            }
            FeatherGateError::HttpError(m) => {
                let mut s = String::from_str("HTTP 请求错误: ");
                s.append(m.as_str());
                s
            }
            FeatherGateError::ModelNotFound(m) => {
                let mut s = String::from_str("模型未找到: ");
                s.append(m.as_str());
                s
            }
            FeatherGateError::UnsupportedProvider(m) => {
                let mut s = String::from_str("提供商不支持: ");
                s.append(m.as_str());
                s
            }
            FeatherGateError::InvalidModelString(m) => {
                let mut s = String::from_str("无效的模型字符串: ");
                s.append(m.as_str());
                s
            }
            FeatherGateError::UpstreamError { status, message } => {
                let mut s = String::from_str("上游 API 错误: ");
                let num = u64_to_dec(*status as u64);
                s.append(num.as_str());
                s.append(" - ");
                s.append(message.as_str());
                s
            }
            FeatherGateError::InternalError(m) => {
                let mut s = String::from_str("内部错误: ");
                s.append(m.as_str());
                s
            }
        }
    }

    /// The outward HTTP status code this error maps to: model-not-found
    /// is 404, an unsupported provider is 400, an upstream error echoes
    /// the captured upstream status, and everything else is 500.
    pub fn status_code(&self) -> (code: u16)
        ensures
            code == match self {
                FeatherGateError::ModelNotFound(_) => 404u16,
                FeatherGateError::UnsupportedProvider(_) => 400u16,
                FeatherGateError::UpstreamError { status, .. } => *status,
                _ => 500u16,
            },
    {
        match self {
            FeatherGateError::ModelNotFound(_) => 404,
            FeatherGateError::UnsupportedProvider(_) => 400,
            FeatherGateError::UpstreamError { status, .. } => *status,
            _ => 500,
        }
    }
}

} // verus!
