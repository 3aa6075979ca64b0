//! Versions of the shading language.
use crate::text::{
    append_decimal, decimal, numerals_have_no_leading_zeros, numerals_have_their_value, value_of,
};
use core::cmp::Ordering;
use vstd::prelude::*;
use vstd::std_specs::cmp::PartialOrdSpec;
use vstd::string::*;

verus! {

/// glsl version
#[derive(Debug, Clone, Copy, PartialEq, Eq, Structural)]
pub enum Version {
    /// `core` glsl
    Desktop(u16),
    /// `es` glsl
    Embedded(u16),
}

/// The supported core glsl versions.
pub open spec fn is_core_version(v: u16) -> bool {
    v == 330 || v == 400 || v == 410 || v == 420 || v == 430 || v == 450 || v == 460
}

/// The supported es glsl versions.
pub open spec fn is_es_version(v: u16) -> bool {
    v == 300 || v == 310
}

impl Version {
    /// Whether this is an `es` version.
    pub open spec fn spec_is_es(self) -> bool {
        self is Embedded
    }

    /// Whether the writer supports this version.
    pub open spec fn spec_is_supported(self) -> bool {
        match self {
            Version::Desktop(v) => is_core_version(v),
            Version::Embedded(v) => is_es_version(v),
        }
    }

    /// The version as it stands in the version directive: number, then profile.
    pub open spec fn text(self) -> Seq<char> {
        match self {
            Version::Desktop(v) => decimal(v as nat) + " core"@,
            Version::Embedded(v) => decimal(v as nat) + " es"@,
        }
    }

    /// Returns true if self is `Version::Embedded` (i.e. is a es version)
    pub fn is_es(&self) -> (es: bool)
        ensures
            es == self.spec_is_es(),
    {
        match self {
            Version::Desktop(_) => false,
            Version::Embedded(_) => true,
        }
    }

    /// Checks the list of currently supported versions and returns true if it contains the
    /// specified version
    ///
    /// # Notes
    /// As an invalid version number is never on the list of supported versions, this also checks
    /// for version validity.
    pub fn is_supported(&self) -> (supported: bool)
        ensures
            supported == self.spec_is_supported(),
    {
        match *self {
            Version::Desktop(v) => v == 330 || v == 400 || v == 410 || v == 420 || v == 430 || v
                == 450 || v == 460,
            Version::Embedded(v) => v == 300 || v == 310,
        }
    }

    /// Appends the version as it stands in the version directive.
    pub fn append_to(&self, out: &mut String)
        ensures
            final(out)@ == old(out)@ + self.text(),
    {
        match *self {
            Version::Desktop(v) => {
                append_decimal(out, v as u64);
                out.append(" core");
                assert(out@ =~= old(out)@ + self.text());
            },
            Version::Embedded(v) => {
                append_decimal(out, v as u64);
                out.append(" es");
                assert(out@ =~= old(out)@ + self.text());
            },
        }
    }

    /// The version as it stands in the version directive, such as `450 core`.
    pub fn to_text(&self) -> (text: String)
        ensures
            text@ == self.text(),
    {
        let mut text = String::new();
        self.append_to(&mut text);
        assert(text@ =~= self.text());
        text
    }
}

/// How two version numbers compare.
pub open spec fn number_order(x: u16, y: u16) -> Ordering {
    if x < y {
        Ordering::Less
    } else if x == y {
        Ordering::Equal
    } else {
        Ordering::Greater
    }
}

impl PartialOrd for Version {
    fn partial_cmp(&self, other: &Self) -> (order: Option<Ordering>) {
        match (*self, *other) {
            (Version::Desktop(x), Version::Desktop(y)) | (
                Version::Embedded(x),
                Version::Embedded(y),
            ) => {
                if x < y {
                    Some(Ordering::Less)
                } else if x == y {
                    Some(Ordering::Equal)
                } else {
                    Some(Ordering::Greater)
                }
            },
            _ => None,
        }
    }
}

impl vstd::std_specs::cmp::PartialOrdSpecImpl for Version {
    open spec fn obeys_partial_cmp_spec() -> bool {
        true
    }

    open spec fn partial_cmp_spec(&self, other: &Self) -> Option<Ordering> {
        match (*self, *other) {
            (Version::Desktop(x), Version::Desktop(y)) => Some(number_order(x, y)),
            (Version::Embedded(x), Version::Embedded(y)) => Some(number_order(x, y)),
            _ => None,
        }
    }
}

/// Versions compare exactly when they are of one profile.
pub proof fn only_versions_of_one_profile_compare(a: Version, b: Version)
    ensures
        a.partial_cmp_spec(&b) is Some <==> a.spec_is_es() == b.spec_is_es(),
{
}

/// Within a profile the order of versions is total: versions that compare equal are equal, swapping
/// them swaps the answer, and the order is transitive.
pub proof fn version_order_is_total_within_a_profile(a: Version, b: Version, c: Version)
    requires
        a.spec_is_es() == b.spec_is_es(),
        b.spec_is_es() == c.spec_is_es(),
    ensures
        a.partial_cmp_spec(&b) == Some(Ordering::Equal) <==> a == b,
        a.partial_cmp_spec(&b) == Some(Ordering::Less) <==> b.partial_cmp_spec(&a) == Some(
            Ordering::Greater,
        ),
        a.partial_cmp_spec(&b) == Some(Ordering::Less) && b.partial_cmp_spec(&c) == Some(
            Ordering::Less,
        ) ==> a.partial_cmp_spec(&c) == Some(Ordering::Less),
{
}

/// The supported versions of core glsl are 330 and the multiples of ten from 400 to 460 except for
/// 440, which has been left out. Those of es glsl are 300 and 310.
pub proof fn supported_versions_are_those_listed(v: u16)
    ensures
        Version::Desktop(v).spec_is_supported() <==> v == 330 || (400 <= v <= 460 && v % 10 == 0
            && v != 440),
        Version::Embedded(v).spec_is_supported() <==> 300 <= v <= 310 && v % 10 == 0,
        !Version::Desktop(v).spec_is_es(),
        Version::Embedded(v).spec_is_es(),
{
}

/// A version is written as the numeral of its number, then a space and its profile.
pub proof fn versions_can_be_read_back(v: u16)
    ensures
        ({
            let text = Version::Desktop(v).text();
            let end = text.len() - " core"@.len();
            &&& end > 0
            &&& value_of(text.take(end)) == v
            &&& text.skip(end) == " core"@
        }),
        ({
            let text = Version::Embedded(v).text();
            let end = text.len() - " es"@.len();
            &&& end > 0
            &&& value_of(text.take(end)) == v
            &&& text.skip(end) == " es"@
        }),
{
    let numeral = decimal(v as nat);
    numerals_have_their_value(v as nat);
    numerals_have_no_leading_zeros(v as nat);
    assert((numeral + " core"@).take(numeral.len() as int) =~= numeral);
    assert((numeral + " core"@).skip(numeral.len() as int) =~= " core"@);
    assert((numeral + " es"@).take(numeral.len() as int) =~= numeral);
    assert((numeral + " es"@).skip(numeral.len() as int) =~= " es"@);
}

/// Versions of one profile are ordered as their numbers are.
pub proof fn later_versions_are_greater(x: u16, y: u16)
    ensures
        x < y <==> Version::Desktop(x).partial_cmp_spec(&Version::Desktop(y)) == Some(
            Ordering::Less,
        ),
        x > y <==> Version::Desktop(x).partial_cmp_spec(&Version::Desktop(y)) == Some(
            Ordering::Greater,
        ),
        x < y <==> Version::Embedded(x).partial_cmp_spec(&Version::Embedded(y)) == Some(
            Ordering::Less,
        ),
        x > y <==> Version::Embedded(x).partial_cmp_spec(&Version::Embedded(y)) == Some(
            Ordering::Greater,
        ),
{
}

} // verus!
