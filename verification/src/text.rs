//! Verified text utilities: decimal rendering of integers, prefix tests, and
//! character searches used by the path and URL builders.

use vstd::prelude::*;
use vstd::string::StrSliceExecFns;
use vstd::string::StringExecFns;

verus! {

/// The decimal digit character for a value below ten.
pub open spec fn digit_char(d: int) -> char {
    if d == 0 {
        '0'
    } else if d == 1 {
        '1'
    } else if d == 2 {
        '2'
    } else if d == 3 {
        '3'
    } else if d == 4 {
        '4'
    } else if d == 5 {
        '5'
    } else if d == 6 {
        '6'
    } else if d == 7 {
        '7'
    } else if d == 8 {
        '8'
    } else {
        '9'
    }
}

/// The decimal rendering of a non-negative integer, most significant digit
/// first, with no leading zeros (a single `'0'` for zero).
pub open spec fn dec_digits(n: int) -> Seq<char>
    decreases n,
{
    if n < 10 {
        seq![digit_char(n)]
    } else {
        dec_digits(n / 10).push(digit_char(n % 10))
    }
}

fn digit_str(d: u32) -> (r: &'static str)
    requires
        d < 10,
    ensures
        r@ == seq![digit_char(d as int)],
{
    let r: &'static str = if d == 0 {
        "0"
    } else if d == 1 {
        "1"
    } else if d == 2 {
        "2"
    } else if d == 3 {
        "3"
    } else if d == 4 {
        "4"
    } else if d == 5 {
        "5"
    } else if d == 6 {
        "6"
    } else if d == 7 {
        "7"
    } else if d == 8 {
        "8"
    } else {
        "9"
    };
    proof {
        reveal_strlit("0");
        reveal_strlit("1");
        reveal_strlit("2");
        reveal_strlit("3");
        reveal_strlit("4");
        reveal_strlit("5");
        reveal_strlit("6");
        reveal_strlit("7");
        reveal_strlit("8");
        reveal_strlit("9");
        assert(r@ =~= seq![digit_char(d as int)]);
    }
    r
}

/// Renders `n` in decimal.
pub fn u32_string(n: u32) -> (r: String)
    ensures
        r@ == dec_digits(n as int),
    decreases n,
{
    let d = digit_str(n % 10);
    if n < 10 {
        d.to_owned()
    } else {
        let mut prefix = u32_string(n / 10);
        prefix.append(d);
        prefix
    }
}

/// A decimal digit character.
pub open spec fn is_digit(c: char) -> bool {
    '0' <= c && c <= '9'
}

/// The value of a decimal digit character.
pub open spec fn digit_value(c: char) -> int {
    c as int - '0' as int
}

/// The value of a digit string, most significant digit first.
pub open spec fn digits_value(s: Seq<char>) -> int
    decreases s.len(),
{
    if s.len() == 0 {
        0
    } else {
        digits_value(s.take(s.len() - 1)) * 10 + digit_value(s[s.len() - 1])
    }
}

/// The digits of a decimal integer text: an optional leading plus sign is
/// dropped, as the standard unsigned parser does.
pub open spec fn unsigned_digits(s: Seq<char>) -> Seq<char> {
    if s.len() > 0 && s[0] == '+' {
        s.skip(1)
    } else {
        s
    }
}

/// What a text parses to as a 32-bit unsigned decimal: after an optional plus
/// sign, at least one character, digits only, and a value within range.
pub open spec fn parsed_u32(s: Seq<char>) -> Option<u32> {
    let d = unsigned_digits(s);
    if d.len() > 0 && (forall|i: int| 0 <= i < d.len() ==> is_digit(d[i])) && digits_value(d)
        <= u32::MAX {
        Some(digits_value(d) as u32)
    } else {
        None
    }
}

/// A digit string's value is never negative.
proof fn lemma_digits_value_nonneg(s: Seq<char>)
    requires
        forall|i: int| 0 <= i < s.len() ==> is_digit(s[i]),
    ensures
        digits_value(s) >= 0,
    decreases s.len(),
{
    if s.len() > 0 {
        lemma_digits_value_nonneg(s.take(s.len() - 1));
    }
}

/// Extending a digit string never shrinks its value.
proof fn lemma_digits_value_monotone(s: Seq<char>, k: int)
    requires
        0 <= k <= s.len(),
        forall|i: int| 0 <= i < s.len() ==> is_digit(s[i]),
    ensures
        digits_value(s) >= digits_value(s.take(k)),
    decreases s.len(),
{
    if k < s.len() {
        let head = s.take(s.len() - 1);
        lemma_digits_value_nonneg(head);
        assert(head.take(k) =~= s.take(k));
        lemma_digits_value_monotone(head, k);
        assert(digits_value(s) == digits_value(head) * 10 + digit_value(s[s.len() - 1]));
        assert(digit_value(s[s.len() - 1]) >= 0);
        assert(digits_value(head) * 10 >= digits_value(head)) by {
            lemma_digits_value_nonneg(head);
        }
    } else {
        assert(s.take(k) =~= s);
    }
}

/// Parses a 32-bit unsigned decimal (see [`parsed_u32`]): the value, or
/// nothing on an empty digit part, a non-digit, or overflow.
pub fn parse_u32(s: &str) -> (r: Option<u32>)
    ensures
        r == parsed_u32(s@),
{
    let n = s.unicode_len();
    let mut start: usize = 0;
    if n > 0 && s.get_char(0) == '+' {
        start = 1;
    }
    let ghost d = unsigned_digits(s@);
    proof {
        assert(d.len() == n - start);
        assert(forall|j: int| 0 <= j < d.len() ==> d[j] == s@[j + start]);
    }
    if start == n {
        return None;
    }
    let mut value: u32 = 0;
    let mut i = start;
    proof {
        assert(d.take(0) =~= Seq::<char>::empty());
    }
    while i < n
        invariant
            start <= i <= n,
            n == s@.len(),
            start == (if s@.len() > 0 && s@[0] == '+' {
                1int
            } else {
                0int
            }),
            d == unsigned_digits(s@),
            d.len() == n - start,
            forall|j: int| 0 <= j < d.len() ==> d[j] == s@[j + start],
            forall|j: int| 0 <= j < i - start ==> is_digit(#[trigger] d[j]),
            value == digits_value(d.take(i - start)),
        decreases n - i,
    {
        let c = s.get_char(i);
        if c < '0' || c > '9' {
            proof {
                assert(!is_digit(d[i - start]));
            }
            return None;
        }
        let dv = c as u32 - '0' as u32;
        let next = value as u64 * 10 + dv as u64;
        proof {
            let grown = d.take(i + 1 - start);
            assert(grown.take(i - start) =~= d.take(i - start));
            assert(grown[i - start] == s@[i as int]);
            assert(digits_value(grown) == digits_value(d.take(i - start)) * 10 + digit_value(
                s@[i as int],
            ));
        }
        if next > u32::MAX as u64 {
            proof {
                if forall|j: int| 0 <= j < d.len() ==> is_digit(#[trigger] d[j]) {
                    lemma_digits_value_monotone(d, i + 1 - start);
                }
            }
            return None;
        }
        value = next as u32;
        i += 1;
    }
    proof {
        assert(d.take(n - start) =~= d);
    }
    Some(value)
}

/// `pre` is an initial segment of `s`.
pub open spec fn is_prefix_of(pre: Seq<char>, s: Seq<char>) -> bool {
    pre.len() <= s.len() && s.take(pre.len() as int) == pre
}

/// Decides whether `s` starts with `prefix`, character by character.
pub fn str_starts_with(s: &str, prefix: &str) -> (r: bool)
    ensures
        r == is_prefix_of(prefix@, s@),
{
    let n = prefix.unicode_len();
    if n > s.unicode_len() {
        return false;
    }
    let mut i: usize = 0;
    while i < n
        invariant
            i <= n,
            n == prefix@.len(),
            n <= s@.len(),
            forall|j: int| 0 <= j < i ==> s@[j] == prefix@[j],
        decreases n - i,
    {
        if s.get_char(i) != prefix.get_char(i) {
            proof {
                assert(s@.take(n as int)[i as int] != prefix@[i as int]);
            }
            return false;
        }
        i += 1;
    }
    proof {
        assert(s@.take(n as int) =~= prefix@);
    }
    true
}

/// Decides equality of two texts.
pub fn str_eq(a: &str, b: &str) -> (r: bool)
    ensures
        r == (a@ == b@),
{
    let sa = a.to_owned();
    let sb = b.to_owned();
    sa == sb
}

/// The text of a boolean, as the flag file and the configuration report write
/// it.
pub fn bool_str(b: bool) -> (r: &'static str)
    ensures
        b ==> r@ == "true"@,
        !b ==> r@ == "false"@,
{
    if b {
        "true"
    } else {
        "false"
    }
}

/// Splitting on a separator character, keeping empty pieces, as `str::split`
/// does: the empty text yields one empty piece.
pub open spec fn split_on(s: Seq<char>, c: char) -> Seq<Seq<char>>
    decreases s.len(),
{
    if s.len() == 0 {
        seq![Seq::<char>::empty()]
    } else if s[0] == c {
        seq![Seq::<char>::empty()] + split_on(s.skip(1), c)
    } else {
        let rest = split_on(s.skip(1), c);
        seq![seq![s[0]] + rest[0]] + rest.skip(1)
    }
}

/// Peeling off the piece before the first separator: if `i` is the position of
/// the first `c` in `s`, the split is the piece before `i` followed by the
/// split of what comes after; with no separator at all, the split is `s` as
/// its one piece.
pub proof fn lemma_split_on_first(s: Seq<char>, c: char, i: int)
    requires
        0 <= i <= s.len(),
        forall|j: int| 0 <= j < i ==> s[j] != c,
        i < s.len() ==> s[i] == c,
    ensures
        i == s.len() ==> split_on(s, c) =~~= seq![s],
        i < s.len() ==> split_on(s, c) =~~= seq![s.take(i)] + split_on(s.skip(i + 1), c),
    decreases i,
{
    if s.len() == 0 {
        assert(split_on(s, c) =~~= seq![s]);
    } else if i == 0 {
        if i < s.len() {
            assert(s.take(0) =~= Seq::<char>::empty());
            assert(split_on(s, c) =~~= seq![s.take(0)] + split_on(s.skip(1), c));
        }
    } else {
        let tail = s.skip(1);
        assert(forall|j: int| 0 <= j < i - 1 ==> tail[j] != c);
        lemma_split_on_first(tail, c, i - 1);
        let rest = split_on(tail, c);
        if i == s.len() {
            assert(rest =~~= seq![tail]);
            assert(seq![s[0]] + tail =~= s);
            assert(split_on(s, c) =~~= seq![s]);
        } else {
            assert(rest =~~= seq![tail.take(i - 1)] + split_on(tail.skip(i), c));
            assert(seq![s[0]] + tail.take(i - 1) =~= s.take(i));
            assert(tail.skip(i) =~= s.skip(i + 1));
            assert(rest.skip(1) =~~= split_on(s.skip(i + 1), c));
            assert(split_on(s, c) =~~= seq![s.take(i)] + split_on(s.skip(i + 1), c));
        }
    }
}

/// Splits `s` on single spaces, keeping empty pieces, as the dependency path
/// list is split out of its configuration variable.
pub fn split_spaces(s: &str) -> (r: Vec<String>)
    ensures
        r.deep_view() == split_on(s@, ' '),
{
    let n = s.unicode_len();
    let mut r: Vec<String> = Vec::new();
    let mut start: usize = 0;
    let mut i: usize = 0;
    proof {
        assert(s@.skip(0) =~= s@);
    }
    while i < n
        invariant
            start <= i <= n,
            n == s@.len(),
            forall|j: int| start <= j < i ==> s@[j] != ' ',
            split_on(s@, ' ') =~~= r.deep_view() + split_on(s@.skip(start as int), ' '),
        decreases n - i,
    {
        if s.get_char(i) == ' ' {
            let token = s.substring_char(start, i);
            r.push(token.to_owned());
            proof {
                let from = s@.skip(start as int);
                assert(forall|j: int|
                    0 <= j < i - start ==> from[j] == s@[j + start] && s@[j + start] != ' ');
                lemma_split_on_first(from, ' ', i - start);
                assert(from.take(i - start) =~= token@);
                assert(from.skip(i - start + 1) =~= s@.skip(i + 1));
                assert(r.deep_view() =~~= r.deep_view().take(r.len() - 1) + seq![token@]);
            }
            start = i + 1;
        }
        i += 1;
    }
    let token = s.substring_char(start, n);
    r.push(token.to_owned());
    proof {
        let from = s@.skip(start as int);
        assert(forall|j: int|
            0 <= j < n - start ==> from[j] == s@[j + start] && s@[j + start] != ' ');
        lemma_split_on_first(from, ' ', n - start);
        assert(from =~= token@);
        assert(r.deep_view() =~~= r.deep_view().take(r.len() - 1) + seq![token@]);
    }
    r
}

/// `s` with every trailing `c` removed.
pub open spec fn strip_trailing(s: Seq<char>, c: char) -> Seq<char>
    decreases s.len(),
{
    if s.len() > 0 && s[s.len() - 1] == c {
        strip_trailing(s.take(s.len() - 1), c)
    } else {
        s
    }
}

/// The position of the last `c` in `s`.
pub open spec fn find_last(s: Seq<char>, c: char) -> Option<int>
    decreases s.len(),
{
    if s.len() == 0 {
        None
    } else if s[s.len() - 1] == c {
        Some(s.len() - 1)
    } else {
        find_last(s.take(s.len() - 1), c)
    }
}

/// The directory above `s`, in the way a path's parent is taken: trailing
/// separators are ignored, the last component is dropped, the root keeps its
/// leading separator, a bare name's parent is empty, and the root itself (or
/// an empty path) has no parent.
pub open spec fn parent_dir_of(s: Seq<char>) -> Option<Seq<char>> {
    let t = strip_trailing(s, '/');
    if t.len() == 0 {
        None
    } else {
        match find_last(t, '/') {
            None => Some(Seq::<char>::empty()),
            Some(i) => if i == 0 {
                Some(seq!['/'])
            } else {
                Some(t.take(i))
            },
        }
    }
}

/// Computes the parent directory of `s` (see [`parent_dir_of`]).
pub fn parent_dir(s: &str) -> (r: Option<String>)
    ensures
        match r {
            Some(p) => parent_dir_of(s@) == Some(p@),
            None => parent_dir_of(s@) is None,
        },
{
    let n = s.unicode_len();
    let mut end = n;
    proof {
        assert(s@.take(n as int) =~= s@);
    }
    while end > 0 && s.get_char(end - 1) == '/'
        invariant
            end <= n,
            n == s@.len(),
            strip_trailing(s@, '/') == strip_trailing(s@.take(end as int), '/'),
        decreases end,
    {
        proof {
            assert(s@.take(end as int).take(end - 1) =~= s@.take(end - 1));
        }
        end -= 1;
    }
    proof {
        assert(strip_trailing(s@, '/') == s@.take(end as int));
    }
    if end == 0 {
        return None;
    }
    let ghost t = s@.take(end as int);
    let mut j = end;
    while j > 0 && s.get_char(j - 1) != '/'
        invariant
            j <= end <= n,
            n == s@.len(),
            t == s@.take(end as int),
            find_last(t, '/') == find_last(s@.take(j as int), '/'),
        decreases j,
    {
        proof {
            assert(s@.take(j as int).take(j - 1) =~= s@.take(j - 1));
        }
        j -= 1;
    }
    if j == 0 {
        proof {
            assert(s@.take(0) =~= Seq::<char>::empty());
        }
        Some(String::new())
    } else if j == 1 {
        proof {
            assert(find_last(s@.take(1), '/') == Some(0int));
            reveal_strlit("/");
            assert("/"@ =~= seq!['/']);
        }
        Some("/".to_owned())
    } else {
        let p = s.substring_char(0, j - 1);
        proof {
            assert(find_last(s@.take(j as int), '/') == Some(j - 1));
            assert(t.take(j - 1) =~= p@);
        }
        Some(p.to_owned())
    }
}

/// Joining a base directory and a relative path, the way paths are joined: an
/// absolute right side stands alone, an empty base contributes nothing, and a
/// separator is inserted only where the base does not already end in one.
pub open spec fn join_path(a: Seq<char>, b: Seq<char>) -> Seq<char> {
    if b.len() > 0 && b[0] == '/' {
        b
    } else if a.len() == 0 {
        b
    } else if a[a.len() - 1] == '/' {
        a + b
    } else {
        a + seq!['/'] + b
    }
}

/// Computes the join of two paths (see [`join_path`]).
pub fn join_path_str(a: &str, b: &str) -> (r: String)
    ensures
        r@ == join_path(a@, b@),
{
    if b.unicode_len() > 0 && b.get_char(0) == '/' {
        return b.to_owned();
    }
    let alen = a.unicode_len();
    if alen == 0 {
        return b.to_owned();
    }
    let mut r = a.to_owned();
    if a.get_char(alen - 1) != '/' {
        r.append("/");
        proof {
            reveal_strlit("/");
            assert(r@ =~= a@ + seq!['/']);
        }
    }
    r.append(b);
    proof {
        if a@[a@.len() - 1] != '/' {
            assert(r@ =~= a@ + seq!['/'] + b@);
        }
    }
    r
}

} // verus!
