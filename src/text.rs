//! Text extraction from the tunnel's status output and configuration file.
use vstd::prelude::*;
use vstd::std_specs::iter::IteratorSpec;
use vstd::string::StrSliceExecFns;
use vstd::string::StringExecFns;

verus! {

broadcast use vstd::string::group_string_axioms;

/// The characters of `s`, in order.
pub fn chars_of(s: &str) -> (v: Vec<char>)
    ensures
        v@ == s@,
{
    let mut it = s.chars();
    let mut v: Vec<char> = Vec::new();
    loop
        invariant
            v@ + it.remaining() == s@,
            it.decrease() is Some,
        ensures
            v@ == s@,
        decreases it.decrease()->0,
    {
        match it.next() {
            Some(c) => {
                v.push(c);
            },
            None => {
                assert(v@ + it.remaining() =~= v@);
                break;
            },
        }
    }
    v
}

/// Whether `pat` stands in `s` at index `i`.
pub open spec fn occurs_at(s: Seq<char>, pat: Seq<char>, i: int) -> bool {
    0 <= i && i + pat.len() <= s.len() && s.subrange(i, i + pat.len()) == pat
}

/// The first index at or after `i` where `pat` stands in `s`.
pub open spec fn find_from(s: Seq<char>, pat: Seq<char>, i: int) -> Option<int>
    decreases s.len() + 1 - i,
{
    if i < 0 || s.len() < i + pat.len() {
        None
    } else if occurs_at(s, pat, i) {
        Some(i)
    } else {
        find_from(s, pat, i + 1)
    }
}

/// The first index at or after `i` that holds the character `c`.
pub open spec fn find_char_from(s: Seq<char>, c: char, i: int) -> Option<int>
    decreases s.len() - i,
{
    if i < 0 || s.len() <= i {
        None
    } else if s[i] == c {
        Some(i)
    } else {
        find_char_from(s, c, i + 1)
    }
}

/// Whether `c` is numeric as `char::is_numeric` tells it: one of Unicode's
/// general categories for numbers.
pub uninterp spec fn is_numeric(c: char) -> bool;

/// Relies on char::is_numeric: whether `c` has one of Unicode's general
/// categories for numbers (Nd, Nl, No), which include the ASCII digits.
#[verifier::external_body]
fn numeric_char(c: char) -> (r: bool)
    ensures
        r == is_numeric(c),
        '0' <= c && c <= '9' ==> r,
{
    c.is_numeric()
}

/// The first index at or after `i` that holds a numeric character.
pub open spec fn find_numeric_from(s: Seq<char>, i: int) -> Option<int>
    decreases s.len() - i,
{
    if i < 0 || s.len() <= i {
        None
    } else if is_numeric(s[i]) {
        Some(i)
    } else {
        find_numeric_from(s, i + 1)
    }
}

/// Unicode White_Space, the set that `char::is_whitespace` tests.
pub open spec fn is_space(c: char) -> bool {
    let u = c as u32;
    (0x09 <= u && u <= 0x0D) || u == 0x20 || u == 0x85 || u == 0xA0 || u == 0x1680
        || (0x2000 <= u && u <= 0x200A) || u == 0x2028 || u == 0x2029 || u == 0x202F
        || u == 0x205F || u == 0x3000
}

/// `s` without its leading white space.
pub open spec fn trim_start(s: Seq<char>) -> Seq<char>
    decreases s.len(),
{
    if s.len() > 0 && is_space(s[0]) {
        trim_start(s.drop_first())
    } else {
        s
    }
}

/// `s` without its trailing white space.
pub open spec fn trim_end(s: Seq<char>) -> Seq<char>
    decreases s.len(),
{
    if s.len() > 0 && is_space(s.last()) {
        trim_end(s.drop_last())
    } else {
        s
    }
}

/// `s` without leading and trailing white space, as `str::trim` gives it.
pub open spec fn trim(s: Seq<char>) -> Seq<char> {
    trim_end(trim_start(s))
}

fn is_space_char(c: char) -> (r: bool)
    ensures
        r == is_space(c),
{
    let u = c as u32;
    (0x09 <= u && u <= 0x0D) || u == 0x20 || u == 0x85 || u == 0xA0 || u == 0x1680
        || (0x2000 <= u && u <= 0x200A) || u == 0x2028 || u == 0x2029 || u == 0x202F
        || u == 0x205F || u == 0x3000
}

/// The first index at or after `from` where `pat` stands in `s`.
fn find_seq(s: &Vec<char>, pat: &Vec<char>, from: usize) -> (r: Option<usize>)
    ensures
        r matches Some(i) ==> find_from(s@, pat@, from as int) == Some(i as int),
        r is None ==> find_from(s@, pat@, from as int) is None,
{
    if s.len() < pat.len() {
        return None;
    }
    let n: usize = s.len();
    let last = n - pat.len();
    let mut i = from;
    while i <= last
        invariant
            from <= i,
            n == s@.len(),
            last == s@.len() - pat@.len(),
            find_from(s@, pat@, from as int) == find_from(s@, pat@, i as int),
        decreases last + 1 - i,
    {
        let mut k: usize = 0;
        let mut same = true;
        while k < pat.len() && same
            invariant
                i + pat@.len() <= s@.len(),
                n == s@.len(),
                k <= pat@.len(),
                same == (forall|j: int| 0 <= j < k ==> s@[i + j] == pat@[j]),
            decreases pat@.len() - k,
        {
            same = s[i + k] == pat[k];
            k = k + 1;
        }
        if same {
            assert(s@.subrange(i as int, i + pat@.len()) =~= pat@);
            return Some(i);
        }
        assert(!occurs_at(s@, pat@, i as int)) by {
            let j = choose|j: int| 0 <= j < k && s@[i + j] != pat@[j];
            assert(s@.subrange(i as int, i + pat@.len())[j] != pat@[j]);
        }
        if i == last {
            assert(find_from(s@, pat@, i + 1) is None);
            return None;
        }
        i = i + 1;
    }
    None
}

/// The first index at or after `from` that holds `c`.
fn find_char(s: &Vec<char>, c: char, from: usize) -> (r: Option<usize>)
    ensures
        r matches Some(i) ==> find_char_from(s@, c, from as int) == Some(i as int),
        r is None ==> find_char_from(s@, c, from as int) is None,
{
    let mut i = from;
    while i < s.len()
        invariant
            from <= i,
            find_char_from(s@, c, from as int) == find_char_from(s@, c, i as int),
        decreases s@.len() - i,
    {
        if s[i] == c {
            return Some(i);
        }
        i = i + 1;
    }
    None
}

/// The first index at or after `from` that holds a numeric character.
fn find_numeric(s: &Vec<char>, from: usize) -> (r: Option<usize>)
    ensures
        r matches Some(i) ==> find_numeric_from(s@, from as int) == Some(i as int),
        r is None ==> find_numeric_from(s@, from as int) is None,
{
    let mut i = from;
    while i < s.len()
        invariant
            from <= i,
            find_numeric_from(s@, from as int) == find_numeric_from(s@, i as int),
        decreases s@.len() - i,
    {
        if numeric_char(s[i]) {
            return Some(i);
        }
        i = i + 1;
    }
    None
}

/// The bounds of `s[lo..hi]` once trimmed of white space at both ends.
fn trimmed_range(s: &Vec<char>, lo: usize, hi: usize) -> (r: (usize, usize))
    requires
        lo <= hi <= s@.len(),
    ensures
        lo <= r.0 <= r.1 <= hi,
        s@.subrange(r.0 as int, r.1 as int) == trim(s@.subrange(lo as int, hi as int)),
{
    let mut a = lo;
    while a < hi && is_space_char(s[a])
        invariant
            lo <= a <= hi <= s@.len(),
            trim_start(s@.subrange(lo as int, hi as int)) == trim_start(
                s@.subrange(a as int, hi as int),
            ),
        decreases hi - a,
    {
        assert(s@.subrange(a as int, hi as int).drop_first() =~= s@.subrange(a + 1, hi as int));
        a = a + 1;
    }
    assert(trim_start(s@.subrange(a as int, hi as int)) == s@.subrange(a as int, hi as int));
    let mut b = hi;
    while b > a && is_space_char(s[b - 1])
        invariant
            a <= b <= hi <= s@.len(),
            trim_end(s@.subrange(a as int, hi as int)) == trim_end(s@.subrange(a as int, b as int)),
        decreases b - a,
    {
        assert(s@.subrange(a as int, b as int).drop_last() =~= s@.subrange(a as int, b - 1));
        b = b - 1;
    }
    assert(trim_end(s@.subrange(a as int, b as int)) == s@.subrange(a as int, b as int));
    (a, b)
}

/// The tag that marks the endpoint field in the tunnel's status output.
pub open spec fn status_tag() -> Seq<char> {
    seq!['e', 'n', 'd', 'p', 'o', 'i', 'n', 't']
}

/// The key of the peer endpoint line in the tunnel's configuration.
pub open spec fn config_tag() -> Seq<char> {
    seq!['E', 'n', 'd', 'p', 'o', 'i', 'n', 't']
}

/// The endpoint address that status text `s` shows: from the first numeric
/// character after the first `endpoint` tag up to the first colon after it,
/// trimmed. None where the tag, the numeric character or the colon is
/// missing.
pub open spec fn status_endpoint(s: Seq<char>) -> Option<Seq<char>> {
    match find_from(s, status_tag(), 0) {
        None => None,
        Some(t) => match find_numeric_from(s, t) {
            None => None,
            Some(d) => match find_char_from(s, ':', d) {
                None => None,
                Some(c) => Some(trim(s.subrange(d, c))),
            },
        },
    }
}

/// The peer domain that configuration text `s` names: after the first
/// `Endpoint` key, the text between the first `=` and the first colon after
/// it, trimmed. None where the key, the `=` or the colon is missing.
pub open spec fn config_domain(s: Seq<char>) -> Option<Seq<char>> {
    match find_from(s, config_tag(), 0) {
        None => None,
        Some(t) => match find_char_from(s, '=', t) {
            None => None,
            Some(q) => match find_char_from(s, ':', q + 1) {
                None => None,
                Some(c) => Some(trim(s.subrange(q + 1, c))),
            },
        },
    }
}

/// Why a configuration yields no peer domain.
#[derive(Debug, Clone, Copy, PartialEq, Eq, Structural)]
pub enum ConfigError {
    /// No `Endpoint = <domain>:<port>` line.
    MissingEndpoint,
    /// The endpoint line names an empty domain.
    EmptyDomain,
}

/// The endpoint address that the tunnel is using, read from its status text.
/// None means there is no active endpoint yet, or the text has another shape.
pub fn endpoint_of_status(status: &str) -> (r: Option<String>)
    ensures
        r matches Some(a) ==> status_endpoint(status@) == Some(a@),
        r is None ==> status_endpoint(status@) is None,
{
    let s = chars_of(status);
    let tag: Vec<char> = vec!['e', 'n', 'd', 'p', 'o', 'i', 'n', 't'];
    assert(tag@ =~= status_tag());
    match find_seq(&s, &tag, 0) {
        None => None,
        Some(t) => match find_numeric(&s, t) {
            None => None,
            Some(d) => match find_char(&s, ':', d) {
                None => None,
                Some(c) => {
                    proof {
                        lemma_find_char_from_bounds(s@, ':', d as int);
                    }
                    let (a, b) = trimmed_range(&s, d, c);
                    Some(String::from_str(status.substring_char(a, b)))
                },
            },
        },
    }
}

/// The peer's domain, read from the tunnel's configuration text.
pub fn get_domain_from_wg_conf(contents: &str) -> (r: Result<String, ConfigError>)
    ensures
        r matches Ok(d) ==> config_domain(contents@) == Some(d@) && d@.len() > 0,
        r == Err::<String, ConfigError>(ConfigError::MissingEndpoint) <==> config_domain(
            contents@,
        ) is None,
        r == Err::<String, ConfigError>(ConfigError::EmptyDomain) <==> config_domain(contents@)
            == Some(Seq::<char>::empty()),
{
    let s = chars_of(contents);
    let tag: Vec<char> = vec!['E', 'n', 'd', 'p', 'o', 'i', 'n', 't'];
    assert(tag@ =~= config_tag());
    match find_seq(&s, &tag, 0) {
        None => Err(ConfigError::MissingEndpoint),
        Some(t) => match find_char(&s, '=', t) {
            None => Err(ConfigError::MissingEndpoint),
            Some(q) => {
                proof {
                    lemma_find_char_from_bounds(s@, '=', t as int);
                }
                match find_char(&s, ':', q + 1) {
                    None => Err(ConfigError::MissingEndpoint),
                    Some(c) => {
                        proof {
                            lemma_find_char_from_bounds(s@, ':', q + 1);
                        }
                        let (a, b) = trimmed_range(&s, q + 1, c);
                        if a == b {
                            assert(s@.subrange(a as int, b as int) =~= Seq::<char>::empty());
                            Err(ConfigError::EmptyDomain)
                        } else {
                            Ok(String::from_str(contents.substring_char(a, b)))
                        }
                    },
                }
            },
        },
    }
}

proof fn lemma_find_char_from_bounds(s: Seq<char>, c: char, i: int)
    ensures
        find_char_from(s, c, i) matches Some(j) ==> i <= j < s.len() && s[j] == c,
    decreases s.len() - i,
{
    if 0 <= i < s.len() && s[i] != c {
        lemma_find_char_from_bounds(s, c, i + 1);
    }
}

/// `t` is the first index where `pat` stands in `s`.
pub open spec fn is_first_occurrence(s: Seq<char>, pat: Seq<char>, t: int) -> bool {
    occurs_at(s, pat, t) && forall|k: int| 0 <= k < t ==> !occurs_at(s, pat, k)
}

/// `d` is the first index at or after `i` that holds a numeric character.
pub open spec fn is_first_numeric_from(s: Seq<char>, i: int, d: int) -> bool {
    0 <= i <= d < s.len() && is_numeric(s[d]) && forall|k: int| i <= k < d ==> !is_numeric(s[k])
}

/// `j` is the first index at or after `i` that holds `c`.
pub open spec fn is_first_char_from(s: Seq<char>, c: char, i: int, j: int) -> bool {
    0 <= i <= j < s.len() && s[j] == c && forall|k: int| i <= k < j ==> s[k] != c
}

proof fn lemma_find_from_first(s: Seq<char>, pat: Seq<char>, i: int, t: int)
    requires
        0 <= i <= t,
        occurs_at(s, pat, t),
        forall|k: int| i <= k < t ==> !occurs_at(s, pat, k),
    ensures
        find_from(s, pat, i) == Some(t),
    decreases t - i,
{
    if i < t {
        lemma_find_from_first(s, pat, i + 1, t);
    }
}

proof fn lemma_find_from_none(s: Seq<char>, pat: Seq<char>, i: int)
    requires
        0 <= i,
        forall|k: int| i <= k ==> !occurs_at(s, pat, k),
    ensures
        find_from(s, pat, i) is None,
    decreases s.len() + 1 - i,
{
    if i + pat.len() <= s.len() {
        lemma_find_from_none(s, pat, i + 1);
    }
}

proof fn lemma_find_numeric_from_first(s: Seq<char>, i: int, d: int)
    requires
        is_first_numeric_from(s, i, d),
    ensures
        find_numeric_from(s, i) == Some(d),
    decreases d - i,
{
    if i < d {
        lemma_find_numeric_from_first(s, i + 1, d);
    }
}

proof fn lemma_find_numeric_from_none(s: Seq<char>, i: int)
    requires
        0 <= i,
        forall|k: int| i <= k < s.len() ==> !is_numeric(s[k]),
    ensures
        find_numeric_from(s, i) is None,
    decreases s.len() - i,
{
    if i < s.len() {
        lemma_find_numeric_from_none(s, i + 1);
    }
}

proof fn lemma_find_char_from_first(s: Seq<char>, c: char, i: int, j: int)
    requires
        is_first_char_from(s, c, i, j),
    ensures
        find_char_from(s, c, i) == Some(j),
    decreases j - i,
{
    if i < j {
        lemma_find_char_from_first(s, c, i + 1, j);
    }
}

proof fn lemma_find_char_from_none(s: Seq<char>, c: char, i: int)
    requires
        0 <= i,
        forall|k: int| i <= k < s.len() ==> s[k] != c,
    ensures
        find_char_from(s, c, i) is None,
    decreases s.len() - i,
{
    if i < s.len() {
        lemma_find_char_from_none(s, c, i + 1);
    }
}

/// Where status text holds the tag, a numeric character after its first
/// occurrence, and a colon after the first such character, the endpoint is
/// the text from that character up to that colon, trimmed.
pub proof fn lemma_status_endpoint_between(s: Seq<char>, t: int, d: int, c: int)
    requires
        is_first_occurrence(s, status_tag(), t),
        is_first_numeric_from(s, t, d),
        is_first_char_from(s, ':', d, c),
    ensures
        status_endpoint(s) == Some(trim(s.subrange(d, c))),
{
    lemma_find_from_first(s, status_tag(), 0, t);
    lemma_find_numeric_from_first(s, t, d);
    lemma_find_char_from_first(s, ':', d, c);
}

/// Status text without the tag, without a numeric character after the tag's
/// first occurrence, or without a colon after the first such character shows no
/// endpoint.
pub proof fn lemma_status_endpoint_absent(s: Seq<char>)
    ensures
        (forall|k: int| !occurs_at(s, status_tag(), k)) ==> status_endpoint(s) is None,
        forall|t: int|
            is_first_occurrence(s, status_tag(), t) && (forall|k: int|
                t <= k < s.len() ==> !is_numeric(s[k])) ==> status_endpoint(s) is None,
        forall|t: int, d: int|
            is_first_occurrence(s, status_tag(), t) && is_first_numeric_from(s, t, d) && (forall|
                k: int,
            |
                d <= k < s.len() ==> s[k] != ':') ==> status_endpoint(s) is None,
{
    if forall|k: int| !occurs_at(s, status_tag(), k) {
        lemma_find_from_none(s, status_tag(), 0);
    }
    assert forall|t: int|
        is_first_occurrence(s, status_tag(), t) && (forall|k: int|
            t <= k < s.len() ==> !is_numeric(s[k])) implies status_endpoint(s) is None by {
        lemma_find_from_first(s, status_tag(), 0, t);
        lemma_find_numeric_from_none(s, t);
    }
    assert forall|t: int, d: int|
        is_first_occurrence(s, status_tag(), t) && is_first_numeric_from(s, t, d) && (forall|k: int|
            d <= k < s.len() ==> s[k] != ':') implies status_endpoint(s) is None by {
        lemma_find_from_first(s, status_tag(), 0, t);
        lemma_find_numeric_from_first(s, t, d);
        lemma_find_char_from_none(s, ':', d);
    }
}

/// Configuration text without the `Endpoint` key, without a `=` after its
/// first occurrence, or without a colon after that `=` names no domain.
pub proof fn lemma_config_domain_absent(s: Seq<char>)
    ensures
        (forall|k: int| !occurs_at(s, config_tag(), k)) ==> config_domain(s) is None,
        forall|t: int|
            is_first_occurrence(s, config_tag(), t) && (forall|k: int|
                t <= k < s.len() ==> s[k] != '=') ==> config_domain(s) is None,
        forall|t: int, q: int|
            is_first_occurrence(s, config_tag(), t) && is_first_char_from(s, '=', t, q) && (forall|
                k: int,
            |
                q < k < s.len() ==> s[k] != ':') ==> config_domain(s) is None,
{
    if forall|k: int| !occurs_at(s, config_tag(), k) {
        lemma_find_from_none(s, config_tag(), 0);
    }
    assert forall|t: int|
        is_first_occurrence(s, config_tag(), t) && (forall|k: int|
            t <= k < s.len() ==> s[k] != '=') implies config_domain(s) is None by {
        lemma_find_from_first(s, config_tag(), 0, t);
        lemma_find_char_from_none(s, '=', t);
    }
    assert forall|t: int, q: int|
        is_first_occurrence(s, config_tag(), t) && is_first_char_from(s, '=', t, q) && (forall|
            k: int,
        |
            q < k < s.len() ==> s[k] != ':') implies config_domain(s) is None by {
        lemma_find_from_first(s, config_tag(), 0, t);
        lemma_find_char_from_first(s, '=', t, q);
        lemma_find_char_from_none(s, ':', q + 1);
    }
}

} // verus!
