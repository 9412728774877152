//! The model registry: an ordered list of named model entries, each
//! binding a logical model name to a provider-qualified model string, a
//! credential, and an optional base-URL override. Loading the registry
//! from a file is the caller's business; validation and lookup live
//! here, as does the parser for `provider/model-id` strings.

use vstd::prelude::*;
use crate::error::FeatherGateError;

verus! {

/// The whole registry.
#[derive(Debug, Clone)]
pub struct Config {
    pub model_list: Vec<ModelConfig>,
}

/// One registry entry.
#[derive(Debug, Clone)]
pub struct ModelConfig {
    pub model_name: String,
    pub litellm_params: LitellmParams,
}

/// The provider binding of one entry: a `provider/model-id` string, a
/// credential, and a base-URL override (empty means the provider's
/// default).
#[derive(Debug, Clone)]
pub struct LitellmParams {
    pub model: String,
    pub api_key: String,
    pub api_base: String,
}

/// The base URL used when an entry sets none: the empty string.
pub fn default_api_base() -> (r: String)
    ensures
        r@ == Seq::<char>::empty(),
{
    String::new()
}

/// One entry is well-formed when its name, model string and credential
/// are all non-empty.
pub open spec fn entry_ok(m: ModelConfig) -> bool {
    &&& m.model_name@.len() > 0
    &&& m.litellm_params.model@.len() > 0
    &&& m.litellm_params.api_key@.len() > 0
}

/// Position `i` holds the earliest entry named `name`.
pub open spec fn first_match_idx(list: Seq<ModelConfig>, name: Seq<char>, i: int) -> bool {
    &&& 0 <= i < list.len()
    &&& list[i].model_name@ == name
    &&& forall|j: int| 0 <= j < i ==> #[trigger] list[j].model_name@ != name
}

impl Config {
    /// Accepts the registry exactly when it is non-empty and every
    /// entry is well-formed; otherwise reports the first violation.
    pub fn validate(&self) -> (r: Result<(), FeatherGateError>)
        ensures
            match r {
                Ok(()) => self.model_list@.len() > 0
                    && forall|i: int| 0 <= i < self.model_list@.len()
                        ==> entry_ok(#[trigger] self.model_list@[i]),
                Err(e) => e matches FeatherGateError::ConfigError(m) && {
                    if self.model_list@.len() == 0 {
                        m@ == "model_list 不能为空"@
                    } else {
                        exists|i: int| #![auto] 0 <= i < self.model_list@.len()
                            && !entry_ok(self.model_list@[i])
                            && (forall|j: int| 0 <= j < i ==> entry_ok(self.model_list@[j]))
                            && m@ == (if self.model_list@[i].model_name@.len() == 0 {
                                "model_name 不能为空"@
                            } else if self.model_list@[i].litellm_params.model@.len() == 0 {
                                "model 参数不能为空"@
                            } else {
                                "api_key 不能为空"@
                            })
                    }
                },
            },
    {
        if self.model_list.len() == 0 {
            return Err(FeatherGateError::config(String::from_str("model_list 不能为空")));
        }

        let n = self.model_list.len();
        let mut i: usize = 0;
        while i < n
            invariant
                0 <= i <= n,
                n == self.model_list@.len(),
                forall|j: int| 0 <= j < i ==> entry_ok(#[trigger] self.model_list@[j]),
            decreases n - i,
        {
            let m = &self.model_list[i];
            if m.model_name.as_str().is_empty() {
                return Err(FeatherGateError::config(String::from_str("model_name 不能为空")));
            }
            if m.litellm_params.model.as_str().is_empty() {
                return Err(FeatherGateError::config(String::from_str("model 参数不能为空")));
            }
            if m.litellm_params.api_key.as_str().is_empty() {
                return Err(FeatherGateError::config(String::from_str("api_key 不能为空")));
            }
            i = i + 1;
        }
        Ok(())
    }

    /// Looks a model name up in the registry. The earliest entry with
    /// that name wins, even when a later entry shares it.
    pub fn find_model(&self, model_name: &str) -> (r: Option<&ModelConfig>)
        ensures
            match r {
                Some(m) => exists|i: int| #![auto]
                    first_match_idx(self.model_list@, model_name@, i)
                    && *m == self.model_list@[i],
                None => forall|i: int| 0 <= i < self.model_list@.len()
                    ==> #[trigger] self.model_list@[i].model_name@ != model_name@,
            },
    {
        let n = self.model_list.len();
        let mut i: usize = 0;
        while i < n
            invariant
                0 <= i <= n,
                n == self.model_list@.len(),
                forall|j: int| 0 <= j < i
                    ==> #[trigger] self.model_list@[j].model_name@ != model_name@,
            decreases n - i,
        {
            let m = &self.model_list[i];
            if crate::text::str_eq(m.model_name.as_str(), model_name) {
                return Some(m);
            }
            i = i + 1;
        }
        None
    }
}

/// One registry entry in the outward model listing.
pub open spec fn model_entry_rep(name: Seq<char>) -> Seq<char> {
    "{\"id\":"@ + crate::streaming::json_string_rep(name)
        + ",\"object\":\"model\",\"owned_by\":\"feathergate\"}"@
}

/// The entry list of the outward model listing.
pub open spec fn models_list_rep(list: Seq<ModelConfig>) -> Seq<char>
    decreases list.len(),
{
    if list.len() == 0 {
        Seq::empty()
    } else if list.len() == 1 {
        model_entry_rep(list[0].model_name@)
    } else {
        models_list_rep(list.drop_last()) + ","@ + model_entry_rep(list.last().model_name@)
    }
}

/// Renders the outward model listing: every registry entry, in order,
/// under the fixed list envelope.
pub fn models_list_json(config: &Config) -> (r: String)
    ensures
        r@ == "{\"data\":["@ + models_list_rep(config.model_list@) + "],\"object\":\"list\"}"@,
{
    let mut out = String::from_str("{\"data\":[");
    let n = config.model_list.len();
    let mut i: usize = 0;
    while i < n
        invariant
            0 <= i <= n,
            n == config.model_list@.len(),
            out@ == "{\"data\":["@ + models_list_rep(config.model_list@.subrange(0, i as int)),
        decreases n - i,
    {
        if i > 0 {
            out.append(",");
        }
        out.append("{\"id\":");
        let name = crate::streaming::json_string(config.model_list[i].model_name.as_str());
        out.append(name.as_str());
        out.append(",\"object\":\"model\",\"owned_by\":\"feathergate\"}");
        proof {
            let p = config.model_list@.subrange(0, i as int);
            let q = config.model_list@.subrange(0, i as int + 1);
            assert(q.drop_last() =~= p);
            assert(q.last() == config.model_list@[i as int]);
            if i == 0 {
                assert(models_list_rep(q) == model_entry_rep(config.model_list@[0].model_name@));
            }
            assert(out@ =~= "{\"data\":["@ + models_list_rep(q));
        }
        i = i + 1;
    }
    proof {
        assert(config.model_list@.subrange(0, n as int) =~= config.model_list@);
    }
    out.append("],\"object\":\"list\"}");
    proof {
        assert(out@ =~= "{\"data\":["@ + models_list_rep(config.model_list@)
            + "],\"object\":\"list\"}"@);
    }
    out
}

/// The earliest entry with a given name is unique: the registry cannot
/// yield two different first matches. Together with `find_model`'s
/// contract this states first-match-wins lookup: when two entries share
/// a name, lookup returns the earlier one.
pub proof fn lemma_first_match_unique(list: Seq<ModelConfig>, name: Seq<char>, i1: int, i2: int)
    requires
        first_match_idx(list, name, i1),
        first_match_idx(list, name, i2),
    ensures
        i1 == i2,
{
    if i1 < i2 {
        assert(list[i1].model_name@ != name);
    }
    if i2 < i1 {
        assert(list[i2].model_name@ != name);
    }
}

/// Position `i` holds the only `/` of the string.
pub open spec fn model_split_at(s: Seq<char>, i: int) -> bool {
    &&& 0 <= i < s.len()
    &&& s[i] == '/'
    &&& forall|j: int| 0 <= j < s.len() && j != i ==> #[trigger] s[j] != '/'
}

/// A provider-qualified model string is well-formed: its only `/`
/// stands strictly inside it.
pub open spec fn valid_model_string(s: Seq<char>) -> bool {
    exists|i: int| #![auto] model_split_at(s, i) && 0 < i < s.len() - 1
}

/// A string has at most one position where its only `/` can stand.
pub proof fn lemma_split_unique(s: Seq<char>, i: int, j: int)
    requires
        model_split_at(s, i),
        model_split_at(s, j),
    ensures
        i == j,
{
    if i != j {
        assert(s[j] != '/');
    }
}

/// The successful outcome of parsing a provider-qualified model string:
/// the only `/` splits it into the non-empty provider tag `p` and the
/// non-empty model identifier `m`.
pub open spec fn parse_model_ok(s: Seq<char>, p: Seq<char>, m: Seq<char>) -> bool {
    exists|i: int| #![auto] model_split_at(s, i) && 0 < i < s.len() - 1
        && p == s.subrange(0, i)
        && m == s.subrange(i + 1, s.len() as int)
}

/// Splits `provider/model-id` at its only `/`. Any other shape — no
/// separator, more than one, or an empty segment — is rejected.
pub fn parse_model_string(model: &str) -> (r: Result<(String, String), FeatherGateError>)
    ensures
        match r {
            Ok(pm) => parse_model_ok(model@, pm.0@, pm.1@),
            Err(e) => {
                e matches FeatherGateError::InvalidModelString(msg) && {
                    if !(exists|i: int| model_split_at(model@, i)) {
                        msg@ == "期望格式 'provider/model-id'，得到: "@ + model@
                    } else {
                        (exists|i: int| #![auto] model_split_at(model@, i)
                            && (i == 0 || i == model@.len() - 1))
                        && msg@ == "提供商和模型 ID 不能为空: "@ + model@
                    }
                }
            },
        },
{
    let n = model.unicode_len();
    let mut count: usize = 0;
    let mut pos: usize = 0;
    let mut pos2: usize = 0;
    let mut i: usize = 0;
    while i < n
        invariant
            0 <= i <= n,
            n == model@.len(),
            count <= i,
            count == 0 ==> forall|j: int| 0 <= j < i ==> #[trigger] model@[j] != '/',
            count >= 1 ==> 0 <= pos < i && model@[pos as int] == '/',
            count == 1 ==> forall|j: int| 0 <= j < i && j != pos as int
                ==> #[trigger] model@[j] != '/',
            count >= 2 ==> 0 <= pos2 < i && pos != pos2 && model@[pos2 as int] == '/',
        decreases n - i,
    {
        if model.get_char(i) == '/' {
            if count == 0 {
                pos = i;
            } else if count == 1 {
                pos2 = i;
            }
            count = count + 1;
        }
        i = i + 1;
    }

    if count != 1 {
        proof {
            if count == 0 {
                assert(forall|k: int| model_split_at(model@, k) ==> false) by {
                    assert(forall|j: int| 0 <= j < model@.len() ==> #[trigger] model@[j] != '/');
                }
            } else {
                assert(forall|k: int| model_split_at(model@, k) ==> false) by {
                    assert forall|k: int| model_split_at(model@, k) implies false by {
                        if k != pos as int {
                            assert(model@[pos as int] != '/');
                        } else {
                            assert(model@[pos2 as int] != '/');
                        }
                    }
                }
            }
        }
        let mut msg = String::from_str("期望格式 'provider/model-id'，得到: ");
        msg.append(model);
        return Err(FeatherGateError::InvalidModelString(msg));
    }

    assert(model_split_at(model@, pos as int));

    if pos == 0 || pos + 1 == n {
        let mut msg = String::from_str("提供商和模型 ID 不能为空: ");
        msg.append(model);
        return Err(FeatherGateError::InvalidModelString(msg));
    }

    let provider = model.substring_char(0, pos);
    let model_id = model.substring_char(pos + 1, n);
    Ok((String::from_str(provider), String::from_str(model_id)))
}

/// For every string that parses, joining the provider tag, `/`, and the
/// model identifier gives back exactly the original string; and neither
/// segment holds a `/` of its own.
pub proof fn lemma_model_string_round_trip(s: Seq<char>, p: Seq<char>, m: Seq<char>)
    requires
        parse_model_ok(s, p, m),
    ensures
        p + seq!['/'] + m == s,
        p.len() > 0,
        m.len() > 0,
        !p.contains('/'),
        !m.contains('/'),
{
    let i = choose|i: int| #![auto] model_split_at(s, i) && 0 < i < s.len() - 1
        && p == s.subrange(0, i)
        && m == s.subrange(i + 1, s.len() as int);
    assert(p + seq!['/'] + m =~= s);
    assert(!p.contains('/')) by {
        if p.contains('/') {
            let j = choose|j: int| 0 <= j < p.len() && p[j] == '/';
            assert(s[j] == '/');
        }
    }
    assert(!m.contains('/')) by {
        if m.contains('/') {
            let j = choose|j: int| 0 <= j < m.len() && m[j] == '/';
            assert(s[i + 1 + j] == '/');
        }
    }
}

} // verus!
