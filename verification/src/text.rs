//! Text helpers: whitespace trimming, decimal numbers and string building.
use vstd::prelude::*;

verus! {

/// Whether `c` has the Unicode `White_Space` property, which is what
/// `char::is_whitespace` and `str::trim` go by.
pub open spec fn char_is_whitespace(c: char) -> bool {
    let n = c as u32;
    ||| 0x09 <= n <= 0x0D
    ||| n == 0x20
    ||| n == 0x85
    ||| n == 0xA0
    ||| n == 0x1680
    ||| 0x2000 <= n <= 0x200A
    ||| n == 0x2028
    ||| n == 0x2029
    ||| n == 0x202F
    ||| n == 0x205F
    ||| n == 0x3000
}

/// Whether `c` is white space.
pub fn is_whitespace(c: char) -> (r: bool)
    ensures
        r == char_is_whitespace(c),
{
    let n = c as u32;
    (0x09 <= n && n <= 0x0D) || n == 0x20 || n == 0x85 || n == 0xA0 || n == 0x1680 || (0x2000 <= n && n <= 0x200A)
        || n == 0x2028 || n == 0x2029 || n == 0x202F || n == 0x205F || n == 0x3000
}

/// `s` without its leading whitespace.
pub open spec fn trim_front(s: Seq<char>) -> Seq<char>
    decreases s.len(),
{
    if s.len() > 0 && char_is_whitespace(s[0]) {
        trim_front(s.drop_first())
    } else {
        s
    }
}

/// `s` without its trailing whitespace.
pub open spec fn trim_back(s: Seq<char>) -> Seq<char>
    decreases s.len(),
{
    if s.len() > 0 && char_is_whitespace(s.last()) {
        trim_back(s.drop_last())
    } else {
        s
    }
}

/// `s` without leading and trailing whitespace, as `str::trim` gives it.
pub open spec fn spec_trim(s: Seq<char>) -> Seq<char> {
    trim_back(trim_front(s))
}

/// The text is empty or holds only whitespace.
pub open spec fn is_blank(s: Seq<char>) -> bool {
    spec_trim(s).len() == 0
}

proof fn lemma_trim_front_skip(s: Seq<char>, i: int)
    requires
        0 <= i <= s.len(),
        forall|j: int| 0 <= j < i ==> char_is_whitespace(#[trigger] s[j]),
        i == s.len() || !char_is_whitespace(s[i]),
    ensures
        trim_front(s) == s.subrange(i, s.len() as int),
    decreases i,
{
    if i == 0 {
        assert(s.subrange(0, s.len() as int) =~= s);
    } else {
        let t = s.drop_first();
        assert forall|j: int| 0 <= j < i - 1 implies char_is_whitespace(#[trigger] t[j]) by {
            assert(t[j] == s[j + 1]);
        }
        assert(char_is_whitespace(s[0]));
        lemma_trim_front_skip(t, i - 1);
        assert(t.subrange(i - 1, t.len() as int) =~= s.subrange(i, s.len() as int));
    }
}

proof fn lemma_trim_back_take(s: Seq<char>, k: int)
    requires
        0 <= k <= s.len(),
        forall|j: int| k <= j < s.len() ==> char_is_whitespace(#[trigger] s[j]),
        k == 0 || !char_is_whitespace(s[k - 1]),
    ensures
        trim_back(s) == s.subrange(0, k),
    decreases s.len() - k,
{
    if k == s.len() {
        assert(s.subrange(0, k) =~= s);
        if s.len() > 0 {
            assert(!char_is_whitespace(s.last()));
        }
    } else {
        let t = s.drop_last();
        assert(char_is_whitespace(s[s.len() - 1]));
        assert forall|j: int| k <= j < t.len() implies char_is_whitespace(#[trigger] t[j]) by {
            assert(t[j] == s[j]);
        }
        if k > 0 {
            assert(t[k - 1] == s[k - 1]);
        }
        lemma_trim_back_take(t, k);
        assert(t.subrange(0, k) =~= s.subrange(0, k));
    }
}

proof fn lemma_trim_front_start(s: Seq<char>)
    ensures
        trim_front(s).len() == 0 || !char_is_whitespace(trim_front(s)[0]),
    decreases s.len(),
{
    if s.len() > 0 && char_is_whitespace(s[0]) {
        lemma_trim_front_start(s.drop_first());
    }
}

proof fn lemma_trim_back_prefix(s: Seq<char>)
    ensures
        trim_back(s).len() <= s.len(),
        trim_back(s) == s.subrange(0, trim_back(s).len() as int),
        trim_back(s).len() == 0 || !char_is_whitespace(trim_back(s).last()),
    decreases s.len(),
{
    if s.len() > 0 && char_is_whitespace(s.last()) {
        lemma_trim_back_prefix(s.drop_last());
        let t = trim_back(s.drop_last());
        assert(s.drop_last().subrange(0, t.len() as int) =~= s.subrange(0, t.len() as int));
    } else {
        assert(s.subrange(0, s.len() as int) =~= s);
    }
}

/// Trimming a trimmed text changes nothing.
pub proof fn lemma_trim_idempotent(s: Seq<char>)
    ensures
        spec_trim(spec_trim(s)) == spec_trim(s),
{
    let f = trim_front(s);
    let t = trim_back(f);
    lemma_trim_front_start(s);
    lemma_trim_back_prefix(f);
    if t.len() > 0 {
        assert(t[0] == f[0]);
    }
    assert(trim_front(t) == t);
    lemma_trim_back_prefix(t);
    assert(trim_back(t) == t);
}

/// `s` with leading and trailing whitespace removed (`str::trim`).
pub fn trim(s: &str) -> (r: String)
    ensures
        r@ == spec_trim(s@),
{
    let n = s.unicode_len();
    let mut i: usize = 0;
    while i < n && is_whitespace(s.get_char(i))
        invariant
            i <= n,
            n == s@.len(),
            forall|j: int| 0 <= j < i ==> char_is_whitespace(#[trigger] s@[j]),
        decreases n - i,
    {
        i = i + 1;
    }
    let mut k: usize = n;
    while k > i && is_whitespace(s.get_char(k - 1))
        invariant
            i <= k <= n,
            n == s@.len(),
            forall|j: int| k <= j < n ==> char_is_whitespace(#[trigger] s@[j]),
        decreases k - i,
    {
        k = k - 1;
    }
    proof {
        lemma_trim_front_skip(s@, i as int);
        let t = s@.subrange(i as int, n as int);
        assert forall|j: int| (k - i) <= j < t.len() implies char_is_whitespace(#[trigger] t[j]) by {
            assert(t[j] == s@[j + i]);
        }
        if k > i {
            assert(t[k - i - 1] == s@[k - 1]);
        }
        lemma_trim_back_take(t, (k - i) as int);
        assert(t.subrange(0, (k - i) as int) =~= s@.subrange(i as int, k as int));
    }
    String::from_str(s.substring_char(i, k))
}

/// True when `s` is empty or holds only whitespace (`s.trim().is_empty()`).
pub fn blank(s: &str) -> (b: bool)
    ensures
        b == is_blank(s@),
{
    let t = trim(s);
    t.as_str().unicode_len() == 0
}

/// The decimal digits of `n`, most significant first, without leading zeros.
pub open spec fn decimal(n: nat) -> Seq<char>
    decreases n,
{
    if n < 10 {
        seq![digit_char(n)]
    } else {
        decimal(n / 10) + seq![digit_char(n % 10)]
    }
}

/// The ASCII digit for `d` (0..=9).
pub open spec fn digit_char(d: nat) -> char {
    if d == 0 {
        '0'
    } else if d == 1 {
        '1'
    } else if d == 2 {
        '2'
    } else if d == 3 {
        '3'
    } else if d == 4 {
        '4'
    } else if d == 5 {
        '5'
    } else if d == 6 {
        '6'
    } else if d == 7 {
        '7'
    } else if d == 8 {
        '8'
    } else {
        '9'
    }
}

fn digit_string(d: u64) -> (r: String)
    requires
        d < 10,
    ensures
        r@ == seq![digit_char(d as nat)],
{
    let r = if d == 0 {
        String::from_str("0")
    } else if d == 1 {
        String::from_str("1")
    } else if d == 2 {
        String::from_str("2")
    } else if d == 3 {
        String::from_str("3")
    } else if d == 4 {
        String::from_str("4")
    } else if d == 5 {
        String::from_str("5")
    } else if d == 6 {
        String::from_str("6")
    } else if d == 7 {
        String::from_str("7")
    } else if d == 8 {
        String::from_str("8")
    } else {
        String::from_str("9")
    };
    proof {
        reveal_strlit("0");
        reveal_strlit("1");
        reveal_strlit("2");
        reveal_strlit("3");
        reveal_strlit("4");
        reveal_strlit("5");
        reveal_strlit("6");
        reveal_strlit("7");
        reveal_strlit("8");
        reveal_strlit("9");
    }
    assert(r@ =~= seq![digit_char(d as nat)]);
    r
}

/// The decimal text of `n`, as `n.to_string()` prints it.
pub fn decimal_string(n: u64) -> (r: String)
    ensures
        r@ == decimal(n as nat),
    decreases n,
{
    if n < 10 {
        digit_string(n)
    } else {
        let mut r = decimal_string(n / 10);
        let d = digit_string(n % 10);
        r.append(d.as_str());
        r
    }
}

/// A fresh `String` holding `s`.
pub fn owned(s: &str) -> (r: String)
    ensures
        r@ == s@,
{
    String::from_str(s)
}

/// `a` followed by `b`.
pub fn concat2(a: &str, b: &str) -> (r: String)
    ensures
        r@ == a@ + b@,
{
    let mut r = String::from_str(a);
    r.append(b);
    r
}

/// `a`, `b` and `c` one after another.
pub fn concat3(a: &str, b: &str, c: &str) -> (r: String)
    ensures
        r@ == a@ + b@ + c@,
{
    let mut r = String::from_str(a);
    r.append(b);
    r.append(c);
    r
}

/// The views of a list of strings.
pub open spec fn views(v: Seq<String>) -> Seq<Seq<char>> {
    v.map_values(|s: String| s@)
}

/// Whether `v` holds a string whose text is `s`.
pub fn contains_text(v: &Vec<String>, s: &str) -> (b: bool)
    ensures
        b == views(v@).contains(s@),
{
    let mut i: usize = 0;
    while i < v.len()
        invariant
            i <= v@.len(),
            forall|j: int| 0 <= j < i ==> v@[j]@ != s@,
        decreases v@.len() - i,
    {
        if str_eq(v[i].as_str(), s) {
            assert(views(v@)[i as int] == s@);
            return true;
        }
        i = i + 1;
    }
    proof {
        if views(v@).contains(s@) {
            let j = choose|j: int| 0 <= j < views(v@).len() && views(v@)[j] == s@;
            assert(v@[j]@ == s@);
        }
    }
    false
}

/// Whether two texts are equal.
pub fn str_eq(a: &str, b: &str) -> (r: bool)
    ensures
        r == (a@ == b@),
{
    let n = a.unicode_len();
    let m = b.unicode_len();
    if n != m {
        return false;
    }
    let mut i: usize = 0;
    while i < n
        invariant
            i <= n,
            n == a@.len(),
            m == b@.len(),
            n == m,
            forall|j: int| 0 <= j < i ==> a@[j] == b@[j],
        decreases n - i,
    {
        if a.get_char(i) != b.get_char(i) {
            return false;
        }
        i = i + 1;
    }
    assert(a@ =~= b@);
    true
}

/// A copy of every string of `v`, in order.
pub fn clone_strings(v: &Vec<String>) -> (r: Vec<String>)
    ensures
        views(r@) == views(v@),
{
    let mut r: Vec<String> = Vec::new();
    let mut i: usize = 0;
    while i < v.len()
        invariant
            i <= v@.len(),
            r@.len() == i,
            forall|j: int| 0 <= j < i ==> r@[j]@ == v@[j]@,
        decreases v@.len() - i,
    {
        r.push(v[i].clone());
        i = i + 1;
    }
    assert(views(r@) =~= views(v@));
    r
}

/// No text occurs twice.
pub open spec fn distinct(names: Seq<Seq<char>>) -> bool {
    forall|i: int, j: int| 0 <= i < j < names.len() ==> names[i] != names[j]
}

/// Whether some text occurs twice in `v`.
pub fn has_repeats(v: &Vec<String>) -> (r: bool)
    ensures
        r == !distinct(views(v@)),
{
    let mut i: usize = 0;
    while i < v.len()
        invariant
            i <= v@.len(),
            forall|a: int, b: int| 0 <= a < b < v@.len() && a < i ==> views(v@)[a] != views(v@)[b],
        decreases v@.len() - i,
    {
        let mut j: usize = i + 1;
        while j < v.len()
            invariant
                i < j <= v@.len(),
                i < v@.len(),
                forall|a: int, b: int| 0 <= a < b < v@.len() && a < i ==> views(v@)[a] != views(v@)[b],
                forall|b: int| i < b < j ==> views(v@)[i as int] != views(v@)[b],
            decreases v@.len() - j,
        {
            if str_eq(v[i].as_str(), v[j].as_str()) {
                assert(views(v@)[i as int] == views(v@)[j as int]);
                return true;
            }
            j = j + 1;
        }
        i = i + 1;
    }
    false
}

/// The position of the first occurrence of `name` in `names`, or -1 when it does not occur.
pub open spec fn first_index(names: Seq<Seq<char>>, name: Seq<char>) -> int
    decreases names.len(),
{
    if names.len() == 0 {
        -1
    } else if names[0] == name {
        0
    } else {
        let r = first_index(names.drop_first(), name);
        if r < 0 {
            -1
        } else {
            r + 1
        }
    }
}

/// A scan that stops at position `i` finds the first occurrence (or none, at the end).
pub proof fn lemma_first_index(names: Seq<Seq<char>>, name: Seq<char>, i: int)
    requires
        0 <= i <= names.len(),
        forall|j: int| 0 <= j < i ==> names[j] != name,
        i < names.len() ==> names[i] == name,
    ensures
        first_index(names, name) == (if i == names.len() { -1 } else { i }),
    decreases i,
{
    if names.len() == 0 {
    } else if i == 0 {
    } else {
        let t = names.drop_first();
        assert forall|j: int| 0 <= j < i - 1 implies t[j] != name by {
            assert(t[j] == names[j + 1]);
        }
        if i < names.len() {
            assert(t[i - 1] == names[i]);
        }
        assert(names[0] != name);
        lemma_first_index(t, name, i - 1);
    }
}

/// The first occurrence is an occurrence, and nothing before it matches.
pub proof fn lemma_first_index_bounds(names: Seq<Seq<char>>, name: Seq<char>)
    ensures
        -1 <= first_index(names, name) < names.len(),
        first_index(names, name) >= 0 ==> names[first_index(names, name)] == name,
        forall|j: int| 0 <= j < first_index(names, name) ==> names[j] != name,
        first_index(names, name) < 0 ==> !names.contains(name),
    decreases names.len(),
{
    if names.len() > 0 && names[0] != name {
        let t = names.drop_first();
        lemma_first_index_bounds(t, name);
        let r = first_index(t, name);
        assert forall|j: int| 0 <= j < first_index(names, name) implies names[j] != name by {
            if j > 0 {
                assert(names[j] == t[j - 1]);
            }
        }
        if r < 0 {
            assert forall|j: int| 0 <= j < names.len() implies names[j] != name by {
                if j > 0 {
                    assert(names[j] == t[j - 1]);
                }
            }
        } else {
            assert(names[r + 1] == t[r]);
        }
    }
}

/// The position of the first string of `v` whose text is `s`.
pub fn find_text(v: &Vec<String>, s: &str) -> (r: Option<usize>)
    ensures
        match r {
            Some(i) => first_index(views(v@), s@) == i,
            None => first_index(views(v@), s@) == -1,
        },
{
    let mut i: usize = 0;
    while i < v.len()
        invariant
            i <= v@.len(),
            forall|j: int| 0 <= j < i ==> views(v@)[j] != s@,
        decreases v@.len() - i,
    {
        if str_eq(v[i].as_str(), s) {
            proof {
                lemma_first_index(views(v@), s@, i as int);
            }
            return Some(i);
        }
        i = i + 1;
    }
    proof {
        lemma_first_index(views(v@), s@, i as int);
    }
    None
}

} // verus!
