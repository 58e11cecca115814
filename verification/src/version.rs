//! OpenSCENARIO standard versions.
use vstd::prelude::*;

verus! {

/// A supported revision of the OpenSCENARIO standard.
#[derive(Clone, Copy, Debug, PartialEq, Eq, PartialOrd, Ord, Hash, Structural)]
pub enum OpenScenarioVersion {
    V1_0,
    V1_1,
    V1_2,
    V1_3,
}

/// The version named by the `revMajor`/`revMinor` pair, if it is supported.
pub open spec fn spec_from_rev(major: u8, minor: u8) -> Option<OpenScenarioVersion> {
    if major == 1 && minor == 0 {
        Some(OpenScenarioVersion::V1_0)
    } else if major == 1 && minor == 1 {
        Some(OpenScenarioVersion::V1_1)
    } else if major == 1 && minor == 2 {
        Some(OpenScenarioVersion::V1_2)
    } else if major == 1 && minor == 3 {
        Some(OpenScenarioVersion::V1_3)
    } else {
        None
    }
}

impl OpenScenarioVersion {
    pub open spec fn spec_major(self) -> u8 {
        1
    }

    pub open spec fn spec_minor(self) -> u8 {
        match self {
            OpenScenarioVersion::V1_0 => 0,
            OpenScenarioVersion::V1_1 => 1,
            OpenScenarioVersion::V1_2 => 2,
            OpenScenarioVersion::V1_3 => 3,
        }
    }

    /// The "major.minor" text of the version, such as "1.2".
    pub open spec fn spec_label(self) -> Seq<char> {
        match self {
            OpenScenarioVersion::V1_0 => seq!['1', '.', '0'],
            OpenScenarioVersion::V1_1 => seq!['1', '.', '1'],
            OpenScenarioVersion::V1_2 => seq!['1', '.', '2'],
            OpenScenarioVersion::V1_3 => seq!['1', '.', '3'],
        }
    }

    /// Parses the version from the `revMajor` and `revMinor` attributes.
    pub fn from_rev(major: u8, minor: u8) -> (r: Option<Self>)
        ensures
            r == spec_from_rev(major, minor),
    {
        if major == 1 && minor == 0 {
            Some(OpenScenarioVersion::V1_0)
        } else if major == 1 && minor == 1 {
            Some(OpenScenarioVersion::V1_1)
        } else if major == 1 && minor == 2 {
            Some(OpenScenarioVersion::V1_2)
        } else if major == 1 && minor == 3 {
            Some(OpenScenarioVersion::V1_3)
        } else {
            None
        }
    }

    /// The major revision number (always 1).
    pub fn major(&self) -> (r: u8)
        ensures
            r == self.spec_major(),
    {
        1
    }

    /// The minor revision number.
    pub fn minor(&self) -> (r: u8)
        ensures
            r == self.spec_minor(),
    {
        match self {
            OpenScenarioVersion::V1_0 => 0,
            OpenScenarioVersion::V1_1 => 1,
            OpenScenarioVersion::V1_2 => 2,
            OpenScenarioVersion::V1_3 => 3,
        }
    }

    /// The "major.minor" text of the version.
    pub fn label(&self) -> (r: String)
        ensures
            r@ == self.spec_label(),
    {
        let r = match self {
            OpenScenarioVersion::V1_0 => String::from_str("1.0"),
            OpenScenarioVersion::V1_1 => String::from_str("1.1"),
            OpenScenarioVersion::V1_2 => String::from_str("1.2"),
            OpenScenarioVersion::V1_3 => String::from_str("1.3"),
        };
        proof {
            reveal_strlit("1.0");
            reveal_strlit("1.1");
            reveal_strlit("1.2");
            reveal_strlit("1.3");
        }
        r
    }
}

/// The version whose label is `label` ("1.0" to "1.3").
pub open spec fn spec_from_label(label: Seq<char>) -> Option<OpenScenarioVersion> {
    if label == OpenScenarioVersion::V1_0.spec_label() {
        Some(OpenScenarioVersion::V1_0)
    } else if label == OpenScenarioVersion::V1_1.spec_label() {
        Some(OpenScenarioVersion::V1_1)
    } else if label == OpenScenarioVersion::V1_2.spec_label() {
        Some(OpenScenarioVersion::V1_2)
    } else if label == OpenScenarioVersion::V1_3.spec_label() {
        Some(OpenScenarioVersion::V1_3)
    } else {
        None
    }
}

/// Reads a version label such as "1.2"; `None` for any other text.
pub fn version_from_label(label: &str) -> (r: Option<OpenScenarioVersion>)
    ensures
        r == spec_from_label(label@),
{
    let n = label.unicode_len();
    if n != 3 {
        return None;
    }
    let a = label.get_char(0);
    let b = label.get_char(1);
    let c = label.get_char(2);
    if a != '1' || b != '.' {
        proof {
            assert(label@ != OpenScenarioVersion::V1_0.spec_label());
            assert(label@ != OpenScenarioVersion::V1_1.spec_label());
            assert(label@ != OpenScenarioVersion::V1_2.spec_label());
            assert(label@ != OpenScenarioVersion::V1_3.spec_label());
        }
        return None;
    }
    if c == '0' {
        assert(label@ =~= OpenScenarioVersion::V1_0.spec_label());
        Some(OpenScenarioVersion::V1_0)
    } else if c == '1' {
        assert(label@ =~= OpenScenarioVersion::V1_1.spec_label());
        Some(OpenScenarioVersion::V1_1)
    } else if c == '2' {
        assert(label@ =~= OpenScenarioVersion::V1_2.spec_label());
        Some(OpenScenarioVersion::V1_2)
    } else if c == '3' {
        assert(label@ =~= OpenScenarioVersion::V1_3.spec_label());
        Some(OpenScenarioVersion::V1_3)
    } else {
        proof {
            assert(label@[2] != OpenScenarioVersion::V1_0.spec_label()[2]);
            assert(label@[2] != OpenScenarioVersion::V1_1.spec_label()[2]);
            assert(label@[2] != OpenScenarioVersion::V1_2.spec_label()[2]);
            assert(label@[2] != OpenScenarioVersion::V1_3.spec_label()[2]);
        }
        None
    }
}

/// A version read back from its own `revMajor`/`revMinor` pair is the same version.
pub proof fn lemma_from_rev_of_parts(v: OpenScenarioVersion)
    ensures
        spec_from_rev(v.spec_major(), v.spec_minor()) == Some(v),
{
}

/// Every version that `from_rev` accepts carries exactly the pair it was read from.
pub proof fn lemma_from_rev_parts(major: u8, minor: u8)
    ensures
        spec_from_rev(major, minor) matches Some(v) ==> v.spec_major() == major && v.spec_minor()
            == minor,
{
}

/// A version read back from its own label is the same version.
pub proof fn lemma_label_round_trip(v: OpenScenarioVersion)
    ensures
        spec_from_label(v.spec_label()) == Some(v),
{
    assert(OpenScenarioVersion::V1_0.spec_label() != OpenScenarioVersion::V1_1.spec_label()) by {
        assert(OpenScenarioVersion::V1_0.spec_label()[2] != OpenScenarioVersion::V1_1.spec_label()[2]);
    }
    assert(OpenScenarioVersion::V1_0.spec_label() != OpenScenarioVersion::V1_2.spec_label()) by {
        assert(OpenScenarioVersion::V1_0.spec_label()[2] != OpenScenarioVersion::V1_2.spec_label()[2]);
    }
    assert(OpenScenarioVersion::V1_1.spec_label() != OpenScenarioVersion::V1_2.spec_label()) by {
        assert(OpenScenarioVersion::V1_1.spec_label()[2] != OpenScenarioVersion::V1_2.spec_label()[2]);
    }
    assert(OpenScenarioVersion::V1_3.spec_label() != OpenScenarioVersion::V1_0.spec_label()) by {
        assert(OpenScenarioVersion::V1_3.spec_label()[2] != OpenScenarioVersion::V1_0.spec_label()[2]);
    }
    assert(OpenScenarioVersion::V1_3.spec_label() != OpenScenarioVersion::V1_1.spec_label()) by {
        assert(OpenScenarioVersion::V1_3.spec_label()[2] != OpenScenarioVersion::V1_1.spec_label()[2]);
    }
    assert(OpenScenarioVersion::V1_3.spec_label() != OpenScenarioVersion::V1_2.spec_label()) by {
        assert(OpenScenarioVersion::V1_3.spec_label()[2] != OpenScenarioVersion::V1_2.spec_label()[2]);
    }
}

} // verus!
