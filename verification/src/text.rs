//! Text helpers shared by the parsers and the formatters of the crate:
//! conversion between strings and character vectors, decimal notation of
//! integers, and splitting on a separator.

use vstd::prelude::*;

verus! {

/// Builds a `String` out of characters.
///
/// Trusted: calls `String::from_iter` of std, which collects the characters
/// of the iterator in order.
#[verifier::external_body]
pub(crate) fn string_of(chars: &Vec<char>) -> (r: String)
    ensures
        r@ == chars@,
{
    String::from_iter(chars.iter())
}

/// The characters of a string slice.
pub fn chars_of(s: &str) -> (r: Vec<char>)
    ensures
        r@ == s@,
{
    let mut out: Vec<char> = Vec::new();
    for c in it: s.chars()
        invariant
            out@ == it.seq().take(it.index()),
            it.seq() == s@,
    {
        out.push(c);
    }
    out
}

/// Whether two string slices hold the same characters.
pub fn str_eq(a: &str, b: &str) -> (r: bool)
    ensures
        r == (a@ == b@),
{
    let x = a.to_owned();
    let y = b.to_owned();
    x == y
}

/// Whether two character vectors hold the same characters.
pub fn chars_eq(s: &Vec<char>, t: &Vec<char>) -> (r: bool)
    ensures
        r == (s@ == t@),
{
    if s.len() != t.len() {
        return false;
    }
    let mut i: usize = 0;
    while i < s.len()
        invariant
            i <= s.len(),
            s.len() == t.len(),
            s@.take(i as int) == t@.take(i as int),
        decreases s.len() - i,
    {
        if s[i] != t[i] {
            return false;
        }
        proof {
            assert(s@.take(i + 1) =~= s@.take(i as int).push(s@[i as int]));
            assert(t@.take(i + 1) =~= t@.take(i as int).push(t@[i as int]));
        }
        i += 1;
    }
    proof {
        assert(s@.take(s.len() as int) =~= s@);
        assert(t@.take(t.len() as int) =~= t@);
    }
    true
}

/// Appends all characters of `tail` to `out`.
pub fn push_all(out: &mut Vec<char>, tail: &Vec<char>)
    ensures
        final(out)@ == old(out)@ + tail@,
{
    let mut i: usize = 0;
    while i < tail.len()
        invariant
            i <= tail.len(),
            out@ == old(out)@ + tail@.take(i as int),
        decreases tail.len() - i,
    {
        out.push(tail[i]);
        i += 1;
    }
}

/// Appends the characters of a string slice to `out`.
pub fn push_str(out: &mut Vec<char>, tail: &str)
    ensures
        final(out)@ == old(out)@ + tail@,
{
    let t = chars_of(tail);
    push_all(out, &t);
}

/// The decimal digit that stands for `d`, for `d` below ten.
pub open spec fn digit_char(d: int) -> char {
    if d == 0 {
        '0'
    } else if d == 1 {
        '1'
    } else if d == 2 {
        '2'
    } else if d == 3 {
        '3'
    } else if d == 4 {
        '4'
    } else if d == 5 {
        '5'
    } else if d == 6 {
        '6'
    } else if d == 7 {
        '7'
    } else if d == 8 {
        '8'
    } else {
        '9'
    }
}

/// The value of a decimal digit, if the character is one.
pub open spec fn digit_value(c: char) -> Option<int> {
    if c == '0' {
        Some(0)
    } else if c == '1' {
        Some(1)
    } else if c == '2' {
        Some(2)
    } else if c == '3' {
        Some(3)
    } else if c == '4' {
        Some(4)
    } else if c == '5' {
        Some(5)
    } else if c == '6' {
        Some(6)
    } else if c == '7' {
        Some(7)
    } else if c == '8' {
        Some(8)
    } else if c == '9' {
        Some(9)
    } else {
        None
    }
}

/// Decimal notation of a natural number, without leading zeros.
pub open spec fn nat_text(n: nat) -> Seq<char>
    decreases n,
{
    if n < 10 {
        seq![digit_char(n as int)]
    } else {
        nat_text(n / 10).push(digit_char((n % 10) as int))
    }
}

/// Decimal notation of an integer: a minus sign for negative values, then
/// the digits of the magnitude.
pub open spec fn int_text(i: int) -> Seq<char> {
    if i < 0 {
        seq!['-'] + nat_text((-i) as nat)
    } else {
        nat_text(i as nat)
    }
}

/// Whether every character of `s` is a decimal digit.
pub open spec fn all_digits(s: Seq<char>) -> bool {
    forall|i: int| 0 <= i < s.len() ==> (#[trigger] digit_value(s[i])) is Some
}

/// The number that a sequence of decimal digits writes; the empty sequence
/// writes zero.
pub open spec fn digits_value(s: Seq<char>) -> nat
    decreases s.len(),
{
    if s.len() == 0 {
        0
    } else {
        let d = digit_value(s.last());
        (digits_value(s.drop_last()) * 10 + (if d is Some { d->0 } else { 0 })) as nat
    }
}

/// Reads an unsigned decimal number: an optional plus sign, then at least
/// one digit.
pub open spec fn parse_nat(s: Seq<char>) -> Option<nat> {
    let body = if s.len() > 0 && s[0] == '+' {
        s.drop_first()
    } else {
        s
    };
    if body.len() > 0 && all_digits(body) {
        Some(digits_value(body))
    } else {
        None
    }
}

/// Reads a signed decimal number: an optional sign, then at least one digit.
pub open spec fn parse_int(s: Seq<char>) -> Option<int> {
    if s.len() > 0 && s[0] == '-' {
        let body = s.drop_first();
        if body.len() > 0 && all_digits(body) {
            Some(-(digits_value(body) as int))
        } else {
            None
        }
    } else {
        match parse_nat(s) {
            Some(n) => Some(n as int),
            None => None,
        }
    }
}

fn digit_of(d: u64) -> (c: char)
    requires
        d < 10,
    ensures
        c == digit_char(d as int),
{
    if d == 0 {
        '0'
    } else if d == 1 {
        '1'
    } else if d == 2 {
        '2'
    } else if d == 3 {
        '3'
    } else if d == 4 {
        '4'
    } else if d == 5 {
        '5'
    } else if d == 6 {
        '6'
    } else if d == 7 {
        '7'
    } else if d == 8 {
        '8'
    } else {
        '9'
    }
}

fn value_of(c: char) -> (r: Option<u64>)
    ensures
        match r {
            Some(v) => digit_value(c) == Some(v as int) && v < 10,
            None => digit_value(c) is None,
        },
{
    if c == '0' {
        Some(0)
    } else if c == '1' {
        Some(1)
    } else if c == '2' {
        Some(2)
    } else if c == '3' {
        Some(3)
    } else if c == '4' {
        Some(4)
    } else if c == '5' {
        Some(5)
    } else if c == '6' {
        Some(6)
    } else if c == '7' {
        Some(7)
    } else if c == '8' {
        Some(8)
    } else if c == '9' {
        Some(9)
    } else {
        None
    }
}

/// Appends the decimal notation of `n` to `out`.
pub fn push_nat(out: &mut Vec<char>, n: u64)
    ensures
        final(out)@ == old(out)@ + nat_text(n as nat),
    decreases n,
{
    if n < 10 {
        out.push(digit_of(n));
    } else {
        push_nat(out, n / 10);
        out.push(digit_of(n % 10));
    }
}

/// Appends the decimal notation of `i` to `out`.
pub fn push_int(out: &mut Vec<char>, i: i64)
    ensures
        final(out)@ == old(out)@ + int_text(i as int),
{
    if i < 0 {
        out.push('-');
        let mag: u64 = if i == i64::MIN {
            9223372036854775808u64
        } else {
            (-i) as u64
        };
        push_nat(out, mag);
    } else {
        push_nat(out, i as u64);
    }
}

/// Decimal notation of a signed integer.
pub fn int_to_string(i: i64) -> (r: String)
    ensures
        r@ == int_text(i as int),
{
    let mut out: Vec<char> = Vec::new();
    push_int(&mut out, i);
    string_of(&out)
}

/// Decimal notation of an unsigned integer.
pub fn nat_to_string(n: u64) -> (r: String)
    ensures
        r@ == nat_text(n as nat),
{
    let mut out: Vec<char> = Vec::new();
    push_nat(&mut out, n);
    string_of(&out)
}

/// A longer run of digits writes a number at least as large as each of its
/// prefixes does.
pub proof fn lemma_digits_value_prefix(s: Seq<char>, k: int)
    requires
        0 <= k <= s.len(),
    ensures
        digits_value(s.take(k)) <= digits_value(s),
    decreases s.len(),
{
    if k == s.len() {
        assert(s.take(k) =~= s);
    } else {
        lemma_digits_value_prefix(s.drop_last(), k);
        assert(s.drop_last().take(k) =~= s.take(k));
    }
}

/// Reads the digits of `s` from `from` on; `None` unless there is at least
/// one character there, all are digits and the number is at most `max`.
fn read_digits(s: &Vec<char>, from: usize, max: u64) -> (r: Option<u64>)
    requires
        from <= s.len(),
    ensures
        r == (if s@.skip(from as int).len() > 0 && all_digits(s@.skip(from as int)) && digits_value(
            s@.skip(from as int),
        ) <= max {
            Some(digits_value(s@.skip(from as int)) as u64)
        } else {
            None
        }),
{
    let ghost body = s@.skip(from as int);
    if from == s.len() {
        return None;
    }
    let mut acc: u64 = 0;
    let mut i: usize = from;
    while i < s.len()
        invariant
            from <= i <= s.len(),
            body == s@.skip(from as int),
            all_digits(body.take(i - from)),
            acc == digits_value(body.take(i - from)),
            acc <= max,
        decreases s.len() - i,
    {
        let ghost pre = body.take(i - from);
        let ghost cur = body.take(i - from + 1);
        proof {
            assert(cur.drop_last() =~= pre);
            assert(cur.last() == s@[i as int]);
        }
        match value_of(s[i]) {
            None => {
                proof {
                    assert(digit_value(body[i - from]) is None);
                }
                return None;
            },
            Some(d) => {
                proof {
                    assert forall|j: int| 0 <= j < cur.len() implies (#[trigger] digit_value(
                        cur[j],
                    )) is Some by {
                        if j < pre.len() {
                            assert(cur[j] == pre[j]);
                        }
                    }
                    lemma_digits_value_prefix(body, i - from + 1);
                }
                if d > max {
                    proof {
                        assert(digits_value(cur) == acc * 10 + d);
                    }
                    return None;
                }
                if acc > (max - d) / 10 {
                    proof {
                        assert(digits_value(cur) == acc * 10 + d);
                        assert(acc * 10 + d > max) by (nonlinear_arith)
                            requires
                                acc > (max - d) / 10,
                                d <= max,
                        ;
                    }
                    return None;
                }
                proof {
                    assert(acc * 10 + d <= max) by (nonlinear_arith)
                        requires
                            acc <= (max - d) / 10,
                            d <= max,
                    ;
                }
                acc = acc * 10 + d;
                i += 1;
            },
        }
    }
    proof {
        assert(body.take(i - from) =~= body);
    }
    Some(acc)
}

/// Reads an unsigned decimal number that is at most `max`.
pub fn parse_unsigned(s: &Vec<char>, max: u64) -> (r: Option<u64>)
    ensures
        r == (match parse_nat(s@) {
            Some(n) => if n <= max {
                Some(n as u64)
            } else {
                None
            },
            None => None,
        }),
{
    if s.len() > 0 && s[0] == '+' {
        proof {
            assert(s@.drop_first() =~= s@.skip(1));
        }
        read_digits(s, 1, max)
    } else {
        proof {
            assert(s@.skip(0) =~= s@);
        }
        read_digits(s, 0, max)
    }
}

/// Whether the text writes an unsigned decimal number, of whatever size.
pub fn is_unsigned(s: &Vec<char>) -> (r: bool)
    ensures
        r == (parse_nat(s@) is Some),
{
    let from: usize = if s.len() > 0 && s[0] == '+' {
        1
    } else {
        0
    };
    let ghost body = s@.skip(from as int);
    proof {
        if from == 1 {
            assert(s@.drop_first() =~= body);
        } else {
            assert(s@ =~= body);
        }
    }
    if from == s.len() {
        return false;
    }
    let mut i: usize = from;
    while i < s.len()
        invariant
            from <= i <= s.len(),
            body == s@.skip(from as int),
            body == (if s@.len() > 0 && s@[0] == '+' {
                s@.drop_first()
            } else {
                s@
            }),
            forall|j: int| 0 <= j < i - from ==> (#[trigger] digit_value(body[j])) is Some,
        decreases s.len() - i,
    {
        if value_of(s[i]).is_none() {
            proof {
                assert(digit_value(body[i - from]) is None);
            }
            return false;
        }
        i += 1;
    }
    true
}

/// Reads a signed decimal number that fits in 64 bits.
pub fn parse_signed(s: &Vec<char>) -> (r: Option<i64>)
    ensures
        r == (match parse_int(s@) {
            Some(v) => if i64::MIN <= v <= i64::MAX {
                Some(v as i64)
            } else {
                None
            },
            None => None,
        }),
{
    if s.len() > 0 && s[0] == '-' {
        proof {
            assert(s@.drop_first() =~= s@.skip(1));
        }
        match read_digits(s, 1, 9223372036854775808u64) {
            Some(m) => {
                if m == 9223372036854775808u64 {
                    Some(i64::MIN)
                } else {
                    Some(-(m as i64))
                }
            },
            None => None,
        }
    } else {
        match parse_unsigned(s, 9223372036854775807u64) {
            Some(m) => Some(m as i64),
            None => None,
        }
    }
}

/// The character sequences that a sequence of character vectors holds.
pub open spec fn rows(v: Seq<Vec<char>>) -> Seq<Seq<char>> {
    Seq::new(v.len(), |i: int| v[i]@)
}

/// The character sequences that a sequence of strings holds.
pub open spec fn texts(v: Seq<String>) -> Seq<Seq<char>> {
    Seq::new(v.len(), |i: int| v[i]@)
}

/// The pieces of `s` between occurrences of `sep`. There is always at least
/// one piece; a separator at either end gives an empty piece there.
pub open spec fn split_spec(s: Seq<char>, sep: char) -> Seq<Seq<char>>
    decreases s.len(),
{
    if s.len() == 0 {
        seq![Seq::<char>::empty()]
    } else if s.last() == sep {
        split_spec(s.drop_last(), sep).push(Seq::<char>::empty())
    } else {
        let before = split_spec(s.drop_last(), sep);
        before.update(before.len() - 1, before.last().push(s.last()))
    }
}

/// A split always has at least one piece.
pub proof fn lemma_split_nonempty(s: Seq<char>, sep: char)
    ensures
        split_spec(s, sep).len() >= 1,
    decreases s.len(),
{
    if s.len() > 0 {
        lemma_split_nonempty(s.drop_last(), sep);
    }
}

/// Splits `s` at every occurrence of `sep`.
pub fn split(s: &Vec<char>, sep: char) -> (r: Vec<Vec<char>>)
    ensures
        rows(r@) == split_spec(s@, sep),
        r.len() >= 1,
{
    let mut done: Vec<Vec<char>> = Vec::new();
    let mut cur: Vec<char> = Vec::new();
    let mut i: usize = 0;
    proof {
        assert(s@.take(0) =~= Seq::<char>::empty());
        assert(rows(done@).push(cur@) =~= split_spec(s@.take(0), sep));
    }
    while i < s.len()
        invariant
            i <= s.len(),
            rows(done@).push(cur@) == split_spec(s@.take(i as int), sep),
        decreases s.len() - i,
    {
        let ghost pre = s@.take(i as int);
        let ghost next = s@.take(i + 1);
        let ghost old_done = rows(done@);
        let ghost old_cur = cur@;
        proof {
            assert(next.drop_last() =~= pre);
            assert(next.last() == s@[i as int]);
        }
        if s[i] == sep {
            done.push(cur);
            cur = Vec::new();
            proof {
                assert(rows(done@) =~= old_done.push(old_cur));
                assert(rows(done@).push(cur@) =~= split_spec(next, sep));
            }
        } else {
            cur.push(s[i]);
            proof {
                let before = split_spec(pre, sep);
                assert(before.last() == old_cur);
                assert(rows(done@).push(cur@) =~= before.update(
                    before.len() - 1,
                    before.last().push(s@[i as int]),
                ));
            }
        }
        i += 1;
    }
    let ghost fin_done = rows(done@);
    let ghost fin_cur = cur@;
    done.push(cur);
    proof {
        assert(s@.take(s.len() as int) =~= s@);
        assert(rows(done@) =~= fin_done.push(fin_cur));
    }
    done
}

/// Whether `s` begins with the characters of `prefix`.
pub open spec fn starts_with_spec(s: Seq<char>, prefix: Seq<char>) -> bool {
    prefix.len() <= s.len() && s.take(prefix.len() as int) == prefix
}

/// Whether `s` begins with the characters of `prefix`.
pub fn starts_with(s: &Vec<char>, prefix: &Vec<char>) -> (r: bool)
    ensures
        r == starts_with_spec(s@, prefix@),
{
    if prefix.len() > s.len() {
        return false;
    }
    let mut i: usize = 0;
    while i < prefix.len()
        invariant
            i <= prefix.len() <= s.len(),
            s@.take(i as int) == prefix@.take(i as int),
        decreases prefix.len() - i,
    {
        if s[i] != prefix[i] {
            proof {
                assert(s@.take(prefix.len() as int)[i as int] != prefix@[i as int]);
            }
            return false;
        }
        proof {
            assert(s@.take(i + 1) =~= s@.take(i as int).push(s@[i as int]));
            assert(prefix@.take(i + 1) =~= prefix@.take(i as int).push(prefix@[i as int]));
        }
        i += 1;
    }
    proof {
        assert(prefix@.take(prefix.len() as int) =~= prefix@);
    }
    true
}

/// The characters of `s` from position `from` on.
pub fn tail_of(s: &Vec<char>, from: usize) -> (r: Vec<char>)
    requires
        from <= s.len(),
    ensures
        r@ == s@.skip(from as int),
{
    let mut out: Vec<char> = Vec::new();
    let mut i: usize = from;
    while i < s.len()
        invariant
            from <= i <= s.len(),
            out@ == s@.subrange(from as int, i as int),
        decreases s.len() - i,
    {
        out.push(s[i]);
        proof {
            assert(s@.subrange(from as int, i + 1) =~= s@.subrange(from as int, i as int).push(
                s@[i as int],
            ));
        }
        i += 1;
    }
    proof {
        assert(s@.subrange(from as int, s.len() as int) =~= s@.skip(from as int));
    }
    out
}


/// The items one after the other, with `sep` between neighbours.
pub open spec fn joined_with(items: Seq<Seq<char>>, sep: Seq<char>) -> Seq<char>
    decreases items.len(),
{
    if items.len() == 0 {
        Seq::empty()
    } else if items.len() == 1 {
        items[0]
    } else {
        joined_with(items.drop_last(), sep) + sep + items.last()
    }
}

/// The texts of `args` from position `from` on, with `sep` between
/// neighbours.
pub fn join_from(args: &Vec<String>, from: usize, sep: &Vec<char>) -> (r: Vec<char>)
    requires
        from <= args.len(),
    ensures
        r@ == joined_with(texts(args@).skip(from as int), sep@),
{
    let mut out: Vec<char> = Vec::new();
    let mut i: usize = from;
    let ghost items = texts(args@).skip(from as int);
    proof {
        assert(items.take(0) =~= Seq::empty());
    }
    while i < args.len()
        invariant
            from <= i <= args.len(),
            items == texts(args@).skip(from as int),
            out@ == joined_with(items.take(i - from), sep@),
        decreases args.len() - i,
    {
        let ghost before = items.take(i - from);
        let ghost after = items.take(i - from + 1);
        proof {
            assert(after.drop_last() =~= before);
            assert(after.last() == args@[i as int]@);
        }
        if i > from {
            push_all(&mut out, sep);
        }
        push_str(&mut out, args[i].as_str());
        proof {
            if i == from {
                assert(before.len() == 0);
                assert(out@ =~= after[0]);
            }
        }
        i += 1;
    }
    proof {
        assert(items.take(args.len() - from) =~= items);
    }
    out
}

/// Whether a later one of the names equals the one at `i`.
pub open spec fn comes_again(names: Seq<Seq<char>>, i: int) -> bool {
    exists|j: int| i < j < names.len() && #[trigger] names[j] == names[i]
}

/// The positions below `n` of the names that no later name equals, in
/// their order: what stays of a list of names when a later entry replaces
/// an earlier one of the same name.
pub open spec fn last_of_each(names: Seq<Seq<char>>, n: nat) -> Seq<int>
    decreases n,
{
    if n == 0 {
        Seq::empty()
    } else {
        let before = last_of_each(names, (n - 1) as nat);
        if comes_again(names, n - 1) {
            before
        } else {
            before.push(n - 1)
        }
    }
}

/// The items at the given positions, in the order of the positions.
pub open spec fn items_at<T>(items: Seq<T>, at: Seq<int>) -> Seq<T> {
    Seq::new(at.len(), |k: int| items[at[k]])
}

/// Whether no name occurs twice.
pub open spec fn each_once(names: Seq<Seq<char>>) -> bool {
    forall|i: int, j: int| 0 <= i < j < names.len() ==> names[i] != names[j]
}

/// Positions as integers.
pub open spec fn as_ints(at: Seq<usize>) -> Seq<int> {
    Seq::new(at.len(), |k: int| at[k] as int)
}

/// The positions that `last_of_each` gives lie below `n`, go upwards, and
/// are those of names that do not come again.
pub proof fn lemma_last_of_each_bounds(names: Seq<Seq<char>>, n: nat)
    requires
        n <= names.len(),
    ensures
        last_of_each(names, n).len() <= n,
        forall|k: int|
            0 <= k < last_of_each(names, n).len() ==> 0 <= #[trigger] last_of_each(names, n)[k] < n
                && !comes_again(names, last_of_each(names, n)[k]),
        forall|a: int, b: int|
            0 <= a < b < last_of_each(names, n).len() ==> last_of_each(names, n)[a] < last_of_each(
                names,
                n,
            )[b],
    decreases n,
{
    if n > 0 {
        lemma_last_of_each_bounds(names, (n - 1) as nat);
    }
}

/// Among the names that `last_of_each` leaves, none occurs twice.
pub proof fn lemma_last_of_each_once(names: Seq<Seq<char>>)
    ensures
        each_once(items_at(names, last_of_each(names, names.len()))),
{
    let at = last_of_each(names, names.len());
    lemma_last_of_each_bounds(names, names.len());
    assert forall|i: int, j: int| 0 <= i < j < at.len() implies items_at(names, at)[i] != items_at(
        names,
        at,
    )[j] by {
        assert(at[i] < at[j]);
        assert(!comes_again(names, at[i]));
        if names[at[j]] == names[at[i]] {
            assert(comes_again(names, at[i]));
        }
    }
}

/// Where no name occurs twice, `last_of_each` leaves every name.
pub proof fn lemma_last_of_each_is_all(names: Seq<Seq<char>>, n: nat)
    requires
        each_once(names),
        n <= names.len(),
    ensures
        last_of_each(names, n) == Seq::new(n, |i: int| i),
    decreases n,
{
    if n > 0 {
        lemma_last_of_each_is_all(names, (n - 1) as nat);
        assert(!comes_again(names, n - 1));
        assert(last_of_each(names, n) =~= Seq::new(n, |i: int| i));
    } else {
        assert(last_of_each(names, n) =~= Seq::new(n, |i: int| i));
    }
}

/// The positions of the names that no later name equals, in their order.
pub fn last_positions(names: &Vec<String>) -> (r: Vec<usize>)
    ensures
        as_ints(r@) == last_of_each(texts(names@), names@.len()),
{
    let ghost all = texts(names@);
    let mut out: Vec<usize> = Vec::new();
    let mut i: usize = 0;
    while i < names.len()
        invariant
            i <= names.len(),
            all == texts(names@),
            as_ints(out@) == last_of_each(all, i as nat),
        decreases names.len() - i,
    {
        let mut again = false;
        let mut j: usize = i + 1;
        while j < names.len()
            invariant
                i < j <= names.len(),
                all == texts(names@),
                again == (exists|q: int| i < q < j && #[trigger] all[q] == all[i as int]),
            decreases names.len() - j,
        {
            if str_eq(names[j].as_str(), names[i].as_str()) {
                again = true;
            }
            proof {
                assert(all[j as int] == names@[j as int]@);
                assert(all[i as int] == names@[i as int]@);
            }
            j += 1;
        }
        proof {
            assert(again == comes_again(all, i as int));
        }
        let ghost before = out@;
        if !again {
            out.push(i);
            proof {
                assert(as_ints(out@) =~= as_ints(before).push(i as int));
            }
        }
        i += 1;
    }
    out
}

} // verus!
