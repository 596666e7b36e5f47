//! Upload rules of the control plane: which multipart field carries the
//! component, and which tenant and function names may name files.
use vstd::prelude::*;
use crate::types::{has_no_slash, scoped_key_of, law_scoped_keys_separate_tenants};

verus! {

/// Whether a multipart field named `name` carries the uploaded component:
/// the field may be called `wasm`, `module` or `file`.
pub fn is_wasm_field(name: &str) -> (carries: bool)
    ensures
        carries == (name@ == "wasm"@ || name@ == "module"@ || name@ == "file"@),
{
    let n = String::from_str(name);
    n == String::from_str("wasm") || n == String::from_str("module") || n == String::from_str("file")
}

/// A tenant or function name that is one plain path component: non-empty,
/// without `/` or `\`, and neither `.` nor `..`.
pub open spec fn valid_name(name: Seq<char>) -> bool {
    &&& name.len() > 0
    &&& has_no_slash(name)
    &&& forall|i: int| 0 <= i < name.len() ==> #[trigger] name[i] != '\\'
    &&& name != seq!['.']
    &&& name != seq!['.', '.']
}

/// Whether `name` may be used as a tenant or function name (and so as a
/// directory or file name under the modules directory).
pub fn is_valid_name(name: &str) -> (valid: bool)
    ensures
        valid == valid_name(name@),
{
    let n: usize = name.unicode_len();
    if n == 0 {
        return false;
    }
    let mut i: usize = 0;
    while i < n
        invariant
            n == name@.len(),
            i <= n,
            forall|j: int| 0 <= j < i ==> name@[j] != '/' && name@[j] != '\\',
        decreases n - i,
    {
        let c: char = name.get_char(i);
        if c == '/' || c == '\\' {
            return false;
        }
        i = i + 1;
    }
    let owned = String::from_str(name);
    proof {
        reveal_strlit(".");
        reveal_strlit("..");
    }
    let dot = String::from_str(".");
    let dots = String::from_str("..");
    assert("."@ =~= seq!['.']);
    assert(".."@ =~= seq!['.', '.']);
    !(owned == dot) && !(owned == dots)
}

/// Valid tenant names keep tenants' key/value data apart: two different valid
/// tenants never share a store key, whatever keys they use.
pub proof fn law_valid_tenants_are_isolated(t1: Seq<char>, k1: Seq<char>, t2: Seq<char>, k2: Seq<char>)
    requires
        valid_name(t1),
        valid_name(t2),
        t1 != t2,
    ensures
        scoped_key_of(t1, k1) != scoped_key_of(t2, k2),
{
    law_scoped_keys_separate_tenants(t1, k1, t2, k2);
}

/// A name is accepted exactly when it is non-empty, holds neither `/` nor
/// `\`, and is neither `.` nor `..`: every other character is allowed.
pub proof fn law_valid_name_exactly(name: Seq<char>)
    ensures
        valid_name(name) <==> {
            &&& name.len() > 0
            &&& forall|i: int| 0 <= i < name.len() ==> #[trigger] name[i] != '/' && name[i] != '\\'
            &&& name != seq!['.']
            &&& name != seq!['.', '.']
        },
{
}

} // verus!
