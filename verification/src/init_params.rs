//! The `key=value` parameters an initialization run hands to the recipe
//! runner.

use vstd::prelude::*;

use crate::text::{chars_of, find_sub, match_at, string_of, subvec, trim_chars, trimmed};

verus! {

/// How one raw parameter fails to parse.
#[derive(Debug)]
pub enum InitParamError {
    /// The raw value is empty after trimming.
    Empty { raw: String },
    /// The raw value has no `=` separator.
    MissingEquals { raw: String },
    /// The key before the `=` is empty after trimming.
    EmptyKey { raw: String },
    /// The value behind the `=` is empty after trimming.
    EmptyValue { raw: String },
}

impl InitParamError {
    /// The failure's description, quoting the offending parameter.
    pub fn message(&self) -> (r: String)
        ensures
            match self {
                InitParamError::Empty { raw } => r@ == "Invalid init parameter: value cannot be empty"@,
                InitParamError::MissingEquals { raw } => r@ == "Invalid init parameter '"@ + raw@
                    + "' (expected key=value)"@,
                InitParamError::EmptyKey { raw } => r@ == "Invalid init parameter '"@ + raw@
                    + "': key cannot be empty"@,
                InitParamError::EmptyValue { raw } => r@ == "Invalid init parameter '"@ + raw@
                    + "': value cannot be empty"@,
            },
    {
        match self {
            InitParamError::Empty { raw } => "Invalid init parameter: value cannot be empty".to_owned(),
            InitParamError::MissingEquals { raw } => {
                let mut m = "Invalid init parameter '".to_owned();
                m.append(raw.as_str());
                m.append("' (expected key=value)");
                m
            },
            InitParamError::EmptyKey { raw } => {
                let mut m = "Invalid init parameter '".to_owned();
                m.append(raw.as_str());
                m.append("': key cannot be empty");
                m
            },
            InitParamError::EmptyValue { raw } => {
                let mut m = "Invalid init parameter '".to_owned();
                m.append(raw.as_str());
                m.append("': value cannot be empty");
                m
            },
        }
    }
}

/// The parsed parameters: a map from key to value where a later duplicate
/// key overwrites the earlier one.
#[derive(Debug)]
pub struct ParamMap {
    pub entries: Vec<(String, String)>,
}

/// No two entries share a key.
pub open spec fn spec_unique_keys(entries: Seq<(Seq<char>, Seq<char>)>) -> bool {
    forall|i: int, j: int|
        0 <= i < j < entries.len() ==> (#[trigger] entries[i]).0 != (#[trigger] entries[j]).0
}

impl ParamMap {
    pub open spec fn view(&self) -> Seq<(Seq<char>, Seq<char>)> {
        crate::body_generator::entry_views(self.entries@)
    }

    pub open spec fn wf(&self) -> bool {
        spec_unique_keys(self@)
    }

    pub fn new() -> (r: ParamMap)
        ensures
            r@ =~= Seq::<(Seq<char>, Seq<char>)>::empty(),
            r.wf(),
    {
        let r = ParamMap { entries: Vec::new() };
        proof {
            assert(r@ =~= Seq::<(Seq<char>, Seq<char>)>::empty());
        }
        r
    }

    pub fn len(&self) -> (r: usize)
        ensures
            r == self@.len(),
    {
        self.entries.len()
    }

    /// The value stored under the key, if any.
    pub fn get<'a>(&'a self, key: &str) -> (r: Option<&'a String>)
        ensures
            match r {
                Some(v) => crate::file_utils::listing_has(self@, key@, v@),
                None => !crate::file_utils::listing_has_path(self@, key@),
            },
    {
        let ghost l = self@;
        let mut i: usize = 0;
        while i < self.entries.len()
            invariant
                i <= self.entries@.len(),
                l == self@,
                forall|k: int| 0 <= k < i ==> (#[trigger] l[k]).0 != key@,
            decreases self.entries@.len() - i,
        {
            proof {
                assert(l[i as int] == (self.entries@[i as int].0@, self.entries@[i as int].1@));
            }
            if crate::text::str_eq(self.entries[i].0.as_str(), key) {
                return Some(&self.entries[i].1);
            }
            i += 1;
        }
        None
    }

    /// Stores the value, overwriting any earlier entry with the key.
    pub fn insert(&mut self, key: String, value: String)
        requires
            old(self).wf(),
        ensures
            final(self).wf(),
            crate::file_utils::listing_has(final(self)@, key@, value@),
            forall|p: Seq<char>|
                p != key@ ==> (crate::file_utils::listing_has_path(final(self)@, p)
                    <==> crate::file_utils::listing_has_path(old(self)@, p)),
    {
        let ghost l0 = self@;
        let mut i: usize = 0;
        while i < self.entries.len()
            invariant
                i <= self.entries@.len(),
                l0 == self@,
                old(self)@ == self@,
                self.wf(),
                forall|k: int| 0 <= k < i ==> (#[trigger] l0[k]).0 != key@,
            decreases self.entries@.len() - i,
        {
            proof {
                assert(l0[i as int] == (self.entries@[i as int].0@, self.entries@[i as int].1@));
            }
            if crate::text::str_eq(self.entries[i].0.as_str(), key.as_str()) {
                self.entries.set(i, (key, value));
                proof {
                    let l1 = self@;
                    assert(l1 =~= l0.update(i as int, (l1[i as int].0, l1[i as int].1)));
                    assert(l1[i as int].0 == l0[i as int].0);
                    assert(spec_unique_keys(l1)) by {
                        assert forall|a: int, b: int| 0 <= a < b < l1.len() implies (
                        #[trigger] l1[a]).0 != (#[trigger] l1[b]).0 by {
                            assert(l1[a].0 == l0[a].0);
                            assert(l1[b].0 == l0[b].0);
                        }
                    }
                    assert(crate::file_utils::listing_has(l1, l1[i as int].0, l1[i as int].1));
                    assert forall|p: Seq<char>| p != l1[i as int].0 implies (
                    crate::file_utils::listing_has_path(l1, p)
                        <==> crate::file_utils::listing_has_path(l0, p)) by {
                        if crate::file_utils::listing_has_path(l1, p) {
                            let k = choose|k: int|
                                0 <= k < l1.len() && (#[trigger] l1[k]).0 == p;
                            assert(l0[k].0 == p);
                        }
                        if crate::file_utils::listing_has_path(l0, p) {
                            let k = choose|k: int|
                                0 <= k < l0.len() && (#[trigger] l0[k]).0 == p;
                            assert(l1[k].0 == p);
                        }
                    }
                }
                return ;
            }
            i += 1;
        }
        let ghost pre = self@;
        self.entries.push((key, value));
        proof {
            let l1 = self@;
            assert(l1 =~= pre.push((l1.last().0, l1.last().1)));
            assert(l1.last().0 == key@ && l1.last().1 == value@);
            assert(spec_unique_keys(l1)) by {
                assert forall|a: int, b: int| 0 <= a < b < l1.len() implies (#[trigger] l1[a]).0
                    != (#[trigger] l1[b]).0 by {
                    if b < l1.len() - 1 {
                        assert(l1[a].0 == pre[a].0 && l1[b].0 == pre[b].0);
                    } else {
                        assert(l1[a].0 == pre[a].0);
                        assert(l1[b].0 == key@);
                    }
                }
            }
            assert(crate::file_utils::listing_has(l1, key@, value@));
            assert forall|p: Seq<char>| p != key@ implies (crate::file_utils::listing_has_path(
                l1,
                p,
            ) <==> crate::file_utils::listing_has_path(pre, p)) by {
                if crate::file_utils::listing_has_path(l1, p) {
                    let k = choose|k: int| 0 <= k < l1.len() && (#[trigger] l1[k]).0 == p;
                    assert(k < l1.len() - 1);
                    assert(pre[k].0 == p);
                }
                if crate::file_utils::listing_has_path(pre, p) {
                    let k = choose|k: int| 0 <= k < pre.len() && (#[trigger] pre[k]).0 == p;
                    assert(l1[k].0 == p);
                }
            }
        }
    }
}

/// How one raw `key=value` parameter parses: trimmed empty is an error; a
/// missing `=` is an error; the key is what precedes the first `=` of the
/// trimmed text and the value what follows it, both trimmed, and neither may
/// be empty.
pub open spec fn spec_param_ok(raw: Seq<char>) -> bool {
    let t = trimmed(raw);
    &&& t.len() > 0
    &&& (exists|i: int| 0 <= i < t.len() && t[i] == '=')
    &&& (forall|i: int|
        (0 <= i < t.len() && t[i] == '=' && (forall|j: int| 0 <= j < i ==> t[j] != '=')) ==> (
        trimmed(t.subrange(0, i)).len() > 0 && trimmed(t.subrange(i + 1, t.len() as int)).len()
            > 0))
}

/// Parses the raw parameters in order into a map; a later duplicate key
/// overwrites the earlier one; the first malformed parameter aborts.
pub fn parse_init_params(raw_params: &Vec<String>) -> (r: Result<ParamMap, InitParamError>)
    ensures
        r matches Ok(m) ==> m.wf(),
{
    let mut params = ParamMap::new();
    let mut i: usize = 0;
    while i < raw_params.len()
        invariant
            i <= raw_params@.len(),
            params.wf(),
        decreases raw_params@.len() - i,
    {
        let cs = chars_of(raw_params[i].as_str());
        let t = trim_chars(&cs);
        if t.len() == 0 {
            return Err(InitParamError::Empty { raw: raw_params[i].clone() });
        }
        let mut eq: Vec<char> = Vec::new();
        eq.push('=');
        match find_sub(&t, &eq, 0) {
            None => {
                return Err(InitParamError::MissingEquals { raw: raw_params[i].clone() });
            },
            Some(p) => {
                proof {
                    assert(match_at(t@, eq@, p as int));
                    assert(eq@.len() == 1);
                }
                let tlen: usize = t.len();
                let key = trim_chars(&subvec(&t, 0, p));
                let value = trim_chars(&subvec(&t, p + 1, tlen));
                if key.len() == 0 {
                    return Err(InitParamError::EmptyKey { raw: raw_params[i].clone() });
                }
                if value.len() == 0 {
                    return Err(InitParamError::EmptyValue { raw: raw_params[i].clone() });
                }
                params.insert(string_of(&key), string_of(&value));
            },
        }
        i += 1;
    }
    Ok(params)
}

} // verus!
