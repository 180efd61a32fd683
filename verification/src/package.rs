//! The extracted package descriptors: the parser's output type.

use vstd::prelude::*;
use vstd::string::StrSliceExecFns;
use vstd::string::StringExecFns;

verus! {

/// The ecosystem a package descriptor belongs to.
#[derive(Clone, Copy, Debug, PartialEq, Eq, Structural)]
pub enum PackageType {
    Npm,
    Ruby,
    Python,
    Maven,
}

/// One resolved package: its name, exact version and ecosystem.
#[derive(Clone, Debug, PartialEq, Eq)]
pub struct PackageDescriptor {
    pub name: String,
    pub version: String,
    pub package_type: PackageType,
}

/// Specification-level package descriptor.
#[verifier::ext_equal]
pub ghost struct SpecDescriptor {
    pub name: Seq<char>,
    pub version: Seq<char>,
    pub package_type: PackageType,
}

impl View for PackageDescriptor {
    type V = SpecDescriptor;

    open spec fn view(&self) -> SpecDescriptor {
        SpecDescriptor {
            name: self.name@,
            version: self.version@,
            package_type: self.package_type,
        }
    }
}

/// Specification view of a descriptor list.
pub open spec fn desc_view(v: Seq<PackageDescriptor>) -> Seq<SpecDescriptor> {
    v.map_values(|d: PackageDescriptor| d@)
}

/// A run of `k` spaces.
pub open spec fn spaces(k: int) -> Seq<char>
    decreases k,
{
    if k <= 0 {
        Seq::empty()
    } else {
        spaces(k - 1).push(' ')
    }
}

/// `s` padded with spaces on the right to at least `w` characters.
pub open spec fn pad_right(s: Seq<char>, w: int) -> Seq<char> {
    if s.len() >= w {
        s
    } else {
        s + spaces(w - s.len())
    }
}

/// Pad `s` with spaces on the right to at least `w` characters.
fn pad_to(s: &String, w: usize) -> (r: String)
    ensures
        r@ == pad_right(s@, w as int),
{
    let mut out = s.clone();
    let n = s.as_str().unicode_len();
    proof {
        assert(out@ =~= s@ + spaces(0));
        reveal_strlit(" ");
        assert(" "@ =~= seq![' ']);
    }
    let mut i = n;
    while i < w
        invariant
            n == s@.len(),
            n <= i,
            i <= w || i == n,
            " "@ == seq![' '],
            out@ == s@ + spaces(i - n),
        decreases w - i,
    {
        out.append(" ");
        proof {
            assert(spaces(i + 1 - n) =~= spaces(i - n).push(' '));
            assert((s@ + spaces(i - n)) + seq![' '] =~= s@ + spaces(i + 1 - n));
        }
        i = i + 1;
    }
    proof {
        if n >= w {
            assert(out@ =~= s@);
        }
    }
    out
}

impl PackageDescriptor {
    /// One fixed-width text line for the descriptor: the name
    /// left-aligned in 48 columns, then the version in 20.
    pub fn render(&self) -> (r: String)
        ensures
            r@ == pad_right(self.name@, 48) + pad_right(self.version@, 20),
    {
        let mut s = pad_to(&self.name, 48);
        let v = pad_to(&self.version, 20);
        s.append(v.as_str());
        s
    }
}

} // verus!
