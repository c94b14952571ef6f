use vstd::prelude::*;
use vstd::string::StrSliceExecFns;
use vstd::string::StringExecFns;

verus! {

/// Character-wise equality of two string slices.
pub fn str_eq(a: &str, b: &str) -> (r: bool)
    ensures
        r == (a@ == b@),
{
    let alen = a.unicode_len();
    let blen = b.unicode_len();
    if alen != blen {
        proof {
            if a@ == b@ {
                assert(a@.len() == b@.len());
            }
        }
        return false;
    }
    let mut i: usize = 0;
    while i < alen
        invariant
            alen == a@.len(),
            blen == b@.len(),
            alen == blen,
            i <= alen,
            forall|j: int| 0 <= j < i ==> a@[j] == b@[j],
        decreases alen - i,
    {
        if a.get_char(i) != b.get_char(i) {
            return false;
        }
        i += 1;
    }
    proof {
        assert(a@ =~= b@);
    }
    true
}

/// The diagnostic line kept for an attribute that the item dispatch table
/// does not recognize: the tag, the attribute and its value.
pub open spec fn spec_log_entry(key: Seq<char>, value: Seq<char>) -> Seq<char> {
    "carry_item: "@ + key + "/"@ + value
}

/// Builds the diagnostic line for one unrecognized item attribute.
pub fn log_entry(key: &str, value: &str) -> (r: String)
    ensures
        r@ == spec_log_entry(key@, value@),
{
    let mut s = String::from_str("carry_item: ");
    s.append(key);
    s.append("/");
    s.append(value);
    s
}

} // verus!
