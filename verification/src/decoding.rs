//! Reading the enumerated attribute values of OpenSCENARIO documents
//! (rules, edges, parameter types, dynamics shapes) and the file header's
//! revision numbers.
use vstd::prelude::*;
use crate::error::{ScenarioError, ScenarioErrorView};
use crate::scenario::ParameterType;
use crate::storyboard::{ConditionEdge, DynamicsDimension, DynamicsShape, Rule, TransitionShape};
use crate::text::{concat3, decimal, decimal_string, owned, str_eq};
use crate::version::{OpenScenarioVersion, spec_from_rev};

verus! {

/// The rule an attribute names; anything unknown reads as `greaterThan`.
pub open spec fn spec_parse_rule(s: Seq<char>) -> Rule {
    if s == "greaterThan"@ {
        Rule::GreaterThan
    } else if s == "lessThan"@ {
        Rule::LessThan
    } else if s == "equalTo"@ {
        Rule::EqualTo
    } else if s == "greaterOrEqual"@ {
        Rule::GreaterOrEqual
    } else if s == "lessOrEqual"@ {
        Rule::LessOrEqual
    } else {
        Rule::GreaterThan
    }
}

/// Reads a `rule` attribute.
pub fn parse_rule(s: &str) -> (r: Rule)
    ensures
        r == spec_parse_rule(s@),
{
    if str_eq(s, "greaterThan") {
        Rule::GreaterThan
    } else if str_eq(s, "lessThan") {
        Rule::LessThan
    } else if str_eq(s, "equalTo") {
        Rule::EqualTo
    } else if str_eq(s, "greaterOrEqual") {
        Rule::GreaterOrEqual
    } else if str_eq(s, "lessOrEqual") {
        Rule::LessOrEqual
    } else {
        Rule::GreaterThan
    }
}

/// The edge a `conditionEdge` attribute names; anything unknown reads as none.
pub open spec fn spec_parse_condition_edge(s: Seq<char>) -> ConditionEdge {
    if s == "rising"@ {
        ConditionEdge::Rising
    } else if s == "falling"@ {
        ConditionEdge::Falling
    } else if s == "risingOrFalling"@ {
        ConditionEdge::RisingOrFalling
    } else {
        ConditionEdge::NoEdge
    }
}

/// Reads a `conditionEdge` attribute.
pub fn parse_condition_edge(s: &str) -> (r: ConditionEdge)
    ensures
        r == spec_parse_condition_edge(s@),
{
    if str_eq(s, "rising") {
        ConditionEdge::Rising
    } else if str_eq(s, "falling") {
        ConditionEdge::Falling
    } else if str_eq(s, "risingOrFalling") {
        ConditionEdge::RisingOrFalling
    } else {
        ConditionEdge::NoEdge
    }
}

/// The type a `parameterType` attribute names; anything unknown reads as string.
pub open spec fn spec_parse_parameter_type(s: Seq<char>) -> ParameterType {
    if s == "integer"@ {
        ParameterType::Integer
    } else if s == "double"@ {
        ParameterType::Double
    } else if s == "string"@ {
        ParameterType::String
    } else if s == "boolean"@ {
        ParameterType::Boolean
    } else if s == "unsignedInt"@ {
        ParameterType::UnsignedInt
    } else if s == "unsignedShort"@ {
        ParameterType::UnsignedShort
    } else if s == "dateTime"@ {
        ParameterType::DateTime
    } else {
        ParameterType::String
    }
}

/// Reads a `parameterType` attribute.
pub fn parse_parameter_type(s: &str) -> (r: ParameterType)
    ensures
        r == spec_parse_parameter_type(s@),
{
    if str_eq(s, "integer") {
        ParameterType::Integer
    } else if str_eq(s, "double") {
        ParameterType::Double
    } else if str_eq(s, "string") {
        ParameterType::String
    } else if str_eq(s, "boolean") {
        ParameterType::Boolean
    } else if str_eq(s, "unsignedInt") {
        ParameterType::UnsignedInt
    } else if str_eq(s, "unsignedShort") {
        ParameterType::UnsignedShort
    } else if str_eq(s, "dateTime") {
        ParameterType::DateTime
    } else {
        ParameterType::String
    }
}

/// The shape a `dynamicsShape` attribute of speed dynamics names; unknown reads as linear.
pub open spec fn spec_parse_dynamics_shape(s: Seq<char>) -> DynamicsShape {
    if s == "sinusoidal"@ {
        DynamicsShape::Sinusoidal
    } else if s == "cubic"@ {
        DynamicsShape::Cubic
    } else {
        DynamicsShape::Linear
    }
}

/// Reads the `dynamicsShape` attribute of speed dynamics.
pub fn parse_dynamics_shape(s: &str) -> (r: DynamicsShape)
    ensures
        r == spec_parse_dynamics_shape(s@),
{
    if str_eq(s, "sinusoidal") {
        DynamicsShape::Sinusoidal
    } else if str_eq(s, "cubic") {
        DynamicsShape::Cubic
    } else {
        DynamicsShape::Linear
    }
}

/// The dimension a `dynamicsDimension` attribute names; unknown reads as time.
pub open spec fn spec_parse_dynamics_dimension(s: Seq<char>) -> DynamicsDimension {
    if s == "distance"@ {
        DynamicsDimension::Distance
    } else if s == "rate"@ {
        DynamicsDimension::Rate
    } else {
        DynamicsDimension::Time
    }
}

/// Reads a `dynamicsDimension` attribute.
pub fn parse_dynamics_dimension(s: &str) -> (r: DynamicsDimension)
    ensures
        r == spec_parse_dynamics_dimension(s@),
{
    if str_eq(s, "distance") {
        DynamicsDimension::Distance
    } else if str_eq(s, "rate") {
        DynamicsDimension::Rate
    } else {
        DynamicsDimension::Time
    }
}

/// The shape a `dynamicsShape` attribute of lane-change dynamics names; unknown reads as linear.
pub open spec fn spec_parse_transition_shape(s: Seq<char>) -> TransitionShape {
    if s == "sinusoidal"@ {
        TransitionShape::Sinusoidal
    } else if s == "cubic"@ {
        TransitionShape::Cubic
    } else {
        TransitionShape::Linear
    }
}

/// Reads the `dynamicsShape` attribute of lane-change dynamics.
pub fn parse_transition_shape(s: &str) -> (r: TransitionShape)
    ensures
        r == spec_parse_transition_shape(s@),
{
    if str_eq(s, "sinusoidal") {
        TransitionShape::Sinusoidal
    } else if str_eq(s, "cubic") {
        TransitionShape::Cubic
    } else {
        TransitionShape::Linear
    }
}

/// The value of a decimal digit.
pub open spec fn digit_value(c: char) -> int {
    c as int - '0' as int
}

/// Whether `c` is an ASCII digit.
pub open spec fn is_digit(c: char) -> bool {
    '0' <= c <= '9'
}

/// The number the digits of `s` write (most significant first).
pub open spec fn digits_value(s: Seq<char>) -> int
    decreases s.len(),
{
    if s.len() == 0 {
        0
    } else {
        digits_value(s.drop_last()) * 10 + digit_value(s.last())
    }
}

/// What `str::parse::<u8>` gives: an optional `+`, then at least one digit,
/// for a value below 256.
pub open spec fn spec_parse_u8(s: Seq<char>) -> Option<u8> {
    let d = unsigned_digits(s);
    if d.len() > 0 && all_digits(d) && digits_value(d) < 256 {
        Some(digits_value(d) as u8)
    } else {
        None
    }
}

/// The text after an optional leading `+`.
pub open spec fn unsigned_digits(s: Seq<char>) -> Seq<char> {
    if s.len() > 0 && s[0] == '+' {
        s.drop_first()
    } else {
        s
    }
}

/// Every character is a decimal digit.
pub open spec fn all_digits(d: Seq<char>) -> bool {
    forall|i: int| 0 <= i < d.len() ==> is_digit(#[trigger] d[i])
}

/// Reads a decimal `u8` as `str::parse::<u8>` does.
pub fn parse_u8(s: &str) -> (r: Option<u8>)
    ensures
        r == spec_parse_u8(s@),
{
    let n = s.unicode_len();
    let start: usize = if n > 0 && s.get_char(0) == '+' { 1 } else { 0 };
    let ghost d = unsigned_digits(s@);
    if start >= n {
        return None;
    }
    let mut value: u32 = 0;
    let mut i: usize = start;
    while i < n
        invariant
            start <= i <= n,
            n == s@.len(),
            d == s@.subrange(start as int, n as int),
            d == unsigned_digits(s@),
            forall|k: int| 0 <= k < i - start ==> is_digit(#[trigger] d[k]),
            value == digits_value(d.subrange(0, i - start)),
            value < 256,
        decreases n - i,
    {
        let c = s.get_char(i);
        assert(c == d[i - start]);
        if c < '0' || c > '9' {
            assert(!is_digit(d[i - start]));
            assert(!all_digits(d));
            return None;
        }
        let digit = (c as u32) - ('0' as u32);
        assert(d.subrange(0, i + 1 - start).drop_last() =~= d.subrange(0, i - start));
        let next = value * 10 + digit;
        if next >= 256 {
            proof {
                assert(digits_value(d.subrange(0, i + 1 - start)) == next);
                if all_digits(d) {
                    lemma_digits_monotone(d, i + 1 - start, d.len() as int);
                    assert(d.subrange(0, d.len() as int) =~= d);
                }
            }
            return None;
        }
        value = next;
        i = i + 1;
    }
    assert(d.subrange(0, n - start) =~= d);
    Some(value as u8)
}

/// The text after an optional leading sign.
pub open spec fn signed_digits(s: Seq<char>) -> Seq<char> {
    if s.len() > 0 && (s[0] == '+' || s[0] == '-') {
        s.drop_first()
    } else {
        s
    }
}

/// What `str::parse::<i32>` gives: an optional sign, then at least one
/// digit, for a value that fits.
pub open spec fn spec_parse_i32(s: Seq<char>) -> Option<i32> {
    let d = signed_digits(s);
    let negative = s.len() > 0 && s[0] == '-';
    if d.len() > 0 && all_digits(d) && digits_value(d) <= (if negative { 2147483648int } else { 2147483647int }) {
        Some((if negative { 0 - digits_value(d) } else { digits_value(d) }) as i32)
    } else {
        None
    }
}

/// Reads a decimal `i32` as `str::parse::<i32>` does.
pub fn parse_i32(s: &str) -> (r: Option<i32>)
    ensures
        r == spec_parse_i32(s@),
{
    let n = s.unicode_len();
    if n == 0 {
        return None;
    }
    let first = s.get_char(0);
    let negative = first == '-';
    let start: usize = if first == '-' || first == '+' { 1 } else { 0 };
    let ghost d = signed_digits(s@);
    if start >= n {
        return None;
    }
    let mut value: i64 = 0;
    let mut i: usize = start;
    while i < n
        invariant
            start <= i <= n,
            n == s@.len(),
            d == s@.subrange(start as int, n as int),
            d == signed_digits(s@),
            forall|k: int| 0 <= k < i - start ==> is_digit(#[trigger] d[k]),
            value == digits_value(d.subrange(0, i - start)),
            0 <= value <= 2147483648,
        decreases n - i,
    {
        let c = s.get_char(i);
        assert(c == d[i - start]);
        if c < '0' || c > '9' {
            assert(!is_digit(d[i - start]));
            assert(!all_digits(d));
            return None;
        }
        let digit = ((c as u32) - ('0' as u32)) as i64;
        assert(d.subrange(0, i + 1 - start).drop_last() =~= d.subrange(0, i - start));
        let next = value * 10 + digit;
        if next > 2147483648 {
            proof {
                assert(digits_value(d.subrange(0, i + 1 - start)) == next);
                if all_digits(d) {
                    lemma_digits_monotone(d, i + 1 - start, d.len() as int);
                    assert(d.subrange(0, d.len() as int) =~= d);
                }
            }
            return None;
        }
        value = next;
        i = i + 1;
    }
    assert(d.subrange(0, n - start) =~= d);
    if negative {
        Some((0 - value) as i32)
    } else if value <= 2147483647 {
        Some(value as i32)
    } else {
        None
    }
}

proof fn lemma_digits_monotone(d: Seq<char>, k: int, j: int)
    requires
        0 <= k <= j <= d.len(),
        forall|i: int| 0 <= i < j ==> is_digit(#[trigger] d[i]),
    ensures
        digits_value(d.subrange(0, j)) >= digits_value(d.subrange(0, k)),
    decreases j - k,
{
    if j > k {
        lemma_digits_monotone(d, k, j - 1);
        assert(d.subrange(0, j).drop_last() =~= d.subrange(0, j - 1));
        lemma_digits_nonnegative(d.subrange(0, j - 1));
        assert(is_digit(d[j - 1]));
    }
}

proof fn lemma_digits_nonnegative(d: Seq<char>)
    requires
        forall|i: int| 0 <= i < d.len() ==> is_digit(#[trigger] d[i]),
    ensures
        digits_value(d) >= 0,
    decreases d.len(),
{
    if d.len() > 0 {
        lemma_digits_nonnegative(d.drop_last());
        assert(is_digit(d[d.len() - 1]));
    }
}

/// The key and value of each attribute.
pub open spec fn pair_views(v: Seq<(String, String)>) -> Seq<(Seq<char>, Seq<char>)> {
    v.map_values(|x: (String, String)| (x.0@, x.1@))
}

/// Reads the `revMajor` and `revMinor` attributes (key and value) from
/// position `i` on: the last value of each, or the error for the first that
/// is not a `u8`.
pub open spec fn header_scan(attrs: Seq<(Seq<char>, Seq<char>)>, i: int, major: Option<u8>, minor: Option<u8>) -> Result<(Option<u8>, Option<u8>), ScenarioErrorView>
    decreases attrs.len() - i,
{
    if i < 0 || i >= attrs.len() {
        Ok((major, minor))
    } else if attrs[i].0 == "revMajor"@ {
        match spec_parse_u8(attrs[i].1) {
            None => Err(ScenarioErrorView::Parse("Invalid revMajor attribute: '"@ + attrs[i].1 + "'. Expected integer."@)),
            Some(v) => header_scan(attrs, i + 1, Some(v), minor),
        }
    } else if attrs[i].0 == "revMinor"@ {
        match spec_parse_u8(attrs[i].1) {
            None => Err(ScenarioErrorView::Parse("Invalid revMinor attribute: '"@ + attrs[i].1 + "'. Expected integer."@)),
            Some(v) => header_scan(attrs, i + 1, major, Some(v)),
        }
    } else {
        header_scan(attrs, i + 1, major, minor)
    }
}

/// The version the attributes of a `FileHeader` name, or the error.
pub open spec fn spec_header_version(attrs: Seq<(Seq<char>, Seq<char>)>) -> Result<OpenScenarioVersion, ScenarioErrorView> {
    match header_scan(attrs, 0, None, None) {
        Err(e) => Err(e),
        Ok((major, minor)) => match major {
            None => Err(ScenarioErrorView::Parse("Missing revMajor attribute in FileHeader"@)),
            Some(a) => match minor {
                None => Err(ScenarioErrorView::Parse("Missing revMinor attribute in FileHeader"@)),
                Some(b) => match spec_from_rev(a, b) {
                    Some(v) => Ok(v),
                    None => Err(ScenarioErrorView::Parse("Unsupported OpenSCENARIO version "@ + decimal(a as nat) + "."@
                        + decimal(b as nat) + ". Supported versions: 1.0, 1.1, 1.2, 1.3."@)),
                },
            },
        },
    }
}

/// Reads the version from the attributes (key and value) of a `FileHeader` element.
pub fn header_version(attrs: &Vec<(String, String)>) -> (r: Result<OpenScenarioVersion, ScenarioError>)
    ensures
        match spec_header_version(pair_views(attrs@)) {
            Ok(v) => r == Ok::<OpenScenarioVersion, ScenarioError>(v),
            Err(e) => r matches Err(x) && x@ == e,
        },
{
    let mut major: Option<u8> = None;
    let mut minor: Option<u8> = None;
    let mut i: usize = 0;
    let ghost w = pair_views(attrs@);
    while i < attrs.len()
        invariant
            i <= attrs@.len(),
            w == pair_views(attrs@),
            header_scan(w, 0, None, None) == header_scan(w, i as int, major, minor),
        decreases attrs@.len() - i,
    {
        assert(w[i as int] == (attrs@[i as int].0@, attrs@[i as int].1@));
        let key = attrs[i].0.as_str();
        let value = attrs[i].1.as_str();
        if str_eq(key, "revMajor") {
            match parse_u8(value) {
                None => {
                    return Err(ScenarioError::Parse(concat3("Invalid revMajor attribute: '", value, "'. Expected integer.")));
                },
                Some(v) => {
                    major = Some(v);
                },
            }
        } else if str_eq(key, "revMinor") {
            match parse_u8(value) {
                None => {
                    return Err(ScenarioError::Parse(concat3("Invalid revMinor attribute: '", value, "'. Expected integer.")));
                },
                Some(v) => {
                    minor = Some(v);
                },
            }
        }
        i = i + 1;
    }
    let a = match major {
        None => {
            return Err(ScenarioError::Parse(owned("Missing revMajor attribute in FileHeader")));
        },
        Some(a) => a,
    };
    let b = match minor {
        None => {
            return Err(ScenarioError::Parse(owned("Missing revMinor attribute in FileHeader")));
        },
        Some(b) => b,
    };
    match OpenScenarioVersion::from_rev(a, b) {
        Some(v) => Ok(v),
        None => {
            let mut m = concat3("Unsupported OpenSCENARIO version ", decimal_string(a as u64).as_str(), ".");
            m.append(decimal_string(b as u64).as_str());
            m.append(". Supported versions: 1.0, 1.1, 1.2, 1.3.");
            Err(ScenarioError::Parse(m))
        },
    }
}

} // verus!
