//! Package names normalized for use as path components.
use vstd::prelude::*;
use vstd::string::*;

verus! {

/// The character that `c` becomes in a normalized name.
pub open spec fn normalize_char(c: char) -> char {
    if c == '-' || c == '.' { '_' } else { c }
}

/// `s` with every `-` and `.` replaced by `_`.
pub open spec fn normalize(s: Seq<char>) -> Seq<char> {
    s.map_values(|c: char| normalize_char(c))
}

/// A package name normalized to the form used for vendored paths.
#[derive(Clone, Debug, PartialEq, Eq, Hash, PartialOrd, Ord)]
pub struct NormalizedName(String);

impl View for NormalizedName {
    type V = Seq<char>;

    closed spec fn view(&self) -> Seq<char> {
        self.0@
    }
}

impl NormalizedName {
    /// Wrap a normalized name, checking that it is valid.
    pub fn new(normalized_name: &str) -> (r: Option<NormalizedName>)
        ensures
            r is Some <==> normalize(normalized_name@) == normalized_name@,
            r is Some ==> r->Some_0@ == normalized_name@,
    {
        let converted_name = Self::from_crate_name(normalized_name);
        if converted_name.0 == String::from_str(normalized_name) {
            Some(converted_name)
        } else {
            None
        }
    }

    /// Normalize a package name as Cargo refers to it.
    pub fn from_crate_name(crate_name: &str) -> (r: NormalizedName)
        ensures
            r@ == normalize(crate_name@),
    {
        let n = crate_name.unicode_len();
        let mut out = String::new();
        let mut i: usize = 0;
        while i < n
            invariant
                n == crate_name@.len(),
                i <= n,
                out@ == normalize(crate_name@.take(i as int)),
            decreases n - i,
        {
            let c = crate_name.get_char(i);
            let ghost before = out@;
            if c == '-' || c == '.' {
                proof {
                    reveal_strlit("_");
                }
                out.append("_");
                assert(out@ =~= before.push('_'));
            } else {
                let one = crate_name.substring_char(i, i + 1);
                assert(one@ =~= seq![c]);
                out.append(one);
                assert(out@ =~= before.push(c));
            }
            assert(crate_name@.take(i + 1) =~= crate_name@.take(i as int).push(c));
            assert(out@ =~= normalize(crate_name@.take(i + 1)));
            i = i + 1;
        }
        assert(crate_name@.take(n as int) =~= crate_name@);
        NormalizedName(out)
    }

    /// The wrapped string.
    pub fn as_str(&self) -> (r: &str)
        ensures
            r@ == self@,
    {
        self.0.as_str()
    }
}

/// Normalizing is idempotent: a normalized name is its own normalization, so
/// `NormalizedName::new` accepts every result of `from_crate_name`.
pub proof fn lemma_normalize_idempotent(s: Seq<char>)
    ensures
        normalize(normalize(s)) == normalize(s),
{
    assert(normalize(normalize(s)) =~= normalize(s));
}

} // verus!
