//! Text helpers: comparing, joining, searching, escaping and writing integers.
use vstd::prelude::*;

verus! {

/// The character of a decimal digit.
pub open spec fn digit_char(d: nat) -> char {
    if d == 0 {
        '0'
    } else if d == 1 {
        '1'
    } else if d == 2 {
        '2'
    } else if d == 3 {
        '3'
    } else if d == 4 {
        '4'
    } else if d == 5 {
        '5'
    } else if d == 6 {
        '6'
    } else if d == 7 {
        '7'
    } else if d == 8 {
        '8'
    } else {
        '9'
    }
}

/// The decimal digits of a natural number, most significant first, without leading zeros.
pub open spec fn digits(n: nat) -> Seq<char>
    decreases n,
{
    if n < 10 {
        seq![digit_char(n)]
    } else {
        digits(n / 10).push(digit_char(n % 10))
    }
}

/// How Rust writes an integer in decimal: a minus sign for a negative one, then its digits.
pub open spec fn decimal(n: int) -> Seq<char> {
    if n < 0 {
        seq!['-'] + digits((-n) as nat)
    } else {
        digits(n as nat)
    }
}

/// `parts` joined with `sep` between each two of them.
pub open spec fn join(parts: Seq<Seq<char>>, sep: Seq<char>) -> Seq<char>
    decreases parts.len(),
{
    if parts.len() == 0 {
        Seq::empty()
    } else if parts.len() == 1 {
        parts[0]
    } else {
        join(parts.drop_last(), sep) + sep + parts.last()
    }
}

/// Law: joining nothing gives the empty text, joining one part gives that
/// part, and joining one part more adds the separator and that part at the end.
pub proof fn lemma_join_pieces(parts: Seq<Seq<char>>, x: Seq<char>, sep: Seq<char>)
    ensures
        join(Seq::<Seq<char>>::empty(), sep) == Seq::<char>::empty(),
        join(seq![x], sep) == x,
        parts.len() > 0 ==> join(parts.push(x), sep) == join(parts, sep) + sep + x,
{
    assert(parts.push(x).drop_last() =~= parts);
}

/// `s` with every space replaced by `%20`.
pub open spec fn encode_spaces(s: Seq<char>) -> Seq<char>
    decreases s.len(),
{
    if s.len() == 0 {
        Seq::empty()
    } else if s.last() == ' ' {
        encode_spaces(s.drop_last()) + seq!['%', '2', '0']
    } else {
        encode_spaces(s.drop_last()).push(s.last())
    }
}

/// `needle` occurs in `hay` starting at `i`.
pub open spec fn occurs_at(hay: Seq<char>, needle: Seq<char>, i: int) -> bool {
    0 <= i && i + needle.len() <= hay.len() && hay.subrange(i, i + needle.len()) == needle
}

/// `needle` occurs somewhere in `hay`.
pub open spec fn occurs_in(hay: Seq<char>, needle: Seq<char>) -> bool {
    exists|i: int| occurs_at(hay, needle, i)
}

/// Law: an encoded query holds no space, and each space became three characters.
pub proof fn lemma_encoded_has_no_space(s: Seq<char>)
    ensures
        !encode_spaces(s).contains(' '),
        encode_spaces(s).len() == s.len() + 2 * s.filter(|c: char| c == ' ').len(),
    decreases s.len(),
{
    reveal_with_fuel(Seq::filter, 1);
    if s.len() > 0 {
        lemma_encoded_has_no_space(s.drop_last());
        let front = encode_spaces(s.drop_last());
        assert(s.drop_last() =~= s.take(s.len() - 1));
        if s.last() == ' ' {
            assert(encode_spaces(s) == front + seq!['%', '2', '0']);
            assert forall|i: int| 0 <= i < encode_spaces(s).len() implies encode_spaces(s)[i] != ' ' by {
                if i < front.len() {
                    assert(encode_spaces(s)[i] == front[i]);
                }
            }
        } else {
            assert(encode_spaces(s) == front.push(s.last()));
            assert forall|i: int| 0 <= i < encode_spaces(s).len() implies encode_spaces(s)[i] != ' ' by {
                if i < front.len() {
                    assert(encode_spaces(s)[i] == front[i]);
                }
            }
        }
    }
}

/// The number that a text of decimal digits writes, most significant first.
pub open spec fn digits_value(s: Seq<char>) -> int
    decreases s.len(),
{
    if s.len() == 0 {
        0
    } else {
        digits_value(s.drop_last()) * 10 + (s.last() as int - '0' as int)
    }
}

/// Law: the digits of a number are decimal digits, the first of them is not
/// a zero unless the number is zero, and read back they give the number.
pub proof fn lemma_digits_value(n: nat)
    ensures
        digits(n).len() > 0,
        digits_value(digits(n)) == n,
        forall|i: int| 0 <= i < digits(n).len() ==> '0' as int <= #[trigger] digits(n)[i] as int <= '9' as int,
        n > 0 ==> digits(n)[0] != '0',
    decreases n,
{
    if n >= 10 {
        lemma_digits_value(n / 10);
        let front = digits(n / 10);
        let d = (n % 10) as nat;
        assert(digits(n) == front.push(digit_char(d)));
        assert(digits(n).drop_last() =~= front);
        assert(digit_char(d) as int - '0' as int == d);
        assert(n == (n / 10) * 10 + n % 10);
        assert(digits(n).last() == digit_char(d));
        assert(digits_value(digits(n)) == digits_value(front) * 10 + (digit_char(d) as int - '0' as int));
        assert forall|i: int| 0 <= i < digits(n).len() implies '0' as int <= #[trigger] digits(n)[i] as int <= '9' as int by {
            if i < front.len() {
                assert(digits(n)[i] == front[i]);
            }
        }
        assert(digits(n)[0] == front[0]);
    } else {
        assert(digits(n) == seq![digit_char(n)]);
        assert(digits(n).drop_last() =~= Seq::<char>::empty());
        assert(digits(n).last() == digit_char(n));
        assert(digit_char(n) as int - '0' as int == n);
        assert(digits_value(Seq::<char>::empty()) == 0);
        assert(digits_value(digits(n)) == digits_value(digits(n).drop_last()) * 10 + (digits(n).last() as int - '0' as int));
    }
}

/// Law: an integer written in decimal reads back as itself: a minus sign
/// before the digits of its magnitude when it is negative, its digits otherwise.
pub proof fn lemma_decimal_value(n: int)
    ensures
        n >= 0 ==> digits_value(decimal(n)) == n,
        n < 0 ==> decimal(n)[0] == '-' && digits_value(decimal(n).drop_first()) == -n,
{
    if n >= 0 {
        lemma_digits_value(n as nat);
    } else {
        lemma_digits_value((-n) as nat);
        assert(decimal(n).drop_first() =~= digits((-n) as nat));
    }
}

/// Law: escaping works character by character: a space becomes `%20`, any
/// other character stays as it is, and the escape of two texts one after the
/// other is the escape of the first followed by that of the second.
pub proof fn lemma_encode_spaces_pieces(a: Seq<char>, b: Seq<char>, c: char)
    ensures
        encode_spaces(a + b) == encode_spaces(a) + encode_spaces(b),
        encode_spaces(seq![' ']) == seq!['%', '2', '0'],
        c != ' ' ==> encode_spaces(seq![c]) == seq![c],
    decreases b.len(),
{
    assert(seq![' '].drop_last() =~= Seq::<char>::empty());
    assert(seq![c].drop_last() =~= Seq::<char>::empty());
    assert(encode_spaces(Seq::<char>::empty()) == Seq::<char>::empty());
    assert(Seq::<char>::empty() + seq!['%', '2', '0'] =~= seq!['%', '2', '0']);
    assert(Seq::<char>::empty().push(c) =~= seq![c]);
    if b.len() == 0 {
        assert(a + b =~= a);
        assert(encode_spaces(a) + encode_spaces(b) =~= encode_spaces(a));
    } else {
        let front = b.drop_last();
        lemma_encode_spaces_pieces(a, front, c);
        assert((a + b).drop_last() =~= a + front);
        assert((a + b).last() == b.last());
        if b.last() == ' ' {
            assert(encode_spaces(a + b) == encode_spaces(a + front) + seq!['%', '2', '0']);
            assert(encode_spaces(b) == encode_spaces(front) + seq!['%', '2', '0']);
            assert(encode_spaces(a) + encode_spaces(front) + seq!['%', '2', '0']
                =~= encode_spaces(a) + (encode_spaces(front) + seq!['%', '2', '0']));
        } else {
            assert(encode_spaces(a + b) == encode_spaces(a + front).push(b.last()));
            assert(encode_spaces(b) == encode_spaces(front).push(b.last()));
            assert((encode_spaces(a) + encode_spaces(front)).push(b.last())
                =~= encode_spaces(a) + encode_spaces(front).push(b.last()));
        }
    }
}

/// Whether two texts are equal.
pub fn text_eq(a: &str, b: &str) -> (r: bool)
    ensures
        r == (a@ == b@),
{
    String::from_str(a) == String::from_str(b)
}

/// An owned copy of an optional text.
pub fn copy_opt(o: &Option<String>) -> (r: Option<String>)
    ensures
        r == *o,
{
    match o {
        Some(s) => Some(s.clone()),
        None => None,
    }
}

/// The text of one decimal digit.
fn digit_text(d: u64) -> (r: &'static str)
    requires
        d < 10,
    ensures
        r@ == seq![digit_char(d as nat)],
{
    if d == 0 {
        proof { reveal_strlit("0"); }
        "0"
    } else if d == 1 {
        proof { reveal_strlit("1"); }
        "1"
    } else if d == 2 {
        proof { reveal_strlit("2"); }
        "2"
    } else if d == 3 {
        proof { reveal_strlit("3"); }
        "3"
    } else if d == 4 {
        proof { reveal_strlit("4"); }
        "4"
    } else if d == 5 {
        proof { reveal_strlit("5"); }
        "5"
    } else if d == 6 {
        proof { reveal_strlit("6"); }
        "6"
    } else if d == 7 {
        proof { reveal_strlit("7"); }
        "7"
    } else if d == 8 {
        proof { reveal_strlit("8"); }
        "8"
    } else {
        proof { reveal_strlit("9"); }
        "9"
    }
}

/// Appends the decimal digits of `m` to `out`.
fn append_digits(out: &mut String, m: u64)
    ensures
        final(out)@ == old(out)@ + digits(m as nat),
    decreases m,
{
    if m >= 10 {
        append_digits(out, m / 10);
        out.append(digit_text(m % 10));
        assert(digits(m as nat) == digits((m / 10) as nat).push(digit_char((m % 10) as nat)));
    } else {
        out.append(digit_text(m));
    }
}

/// Writes an integer in decimal, as `format!("{}", n)` does.
pub fn decimal_text(n: i64) -> (r: String)
    ensures
        r@ == decimal(n as int),
{
    let mut out = String::new();
    if n < 0 {
        proof { reveal_strlit("-"); }
        out.append("-");
        let magnitude: u64 = ((-(n + 1)) as u64) + 1;
        append_digits(&mut out, magnitude);
    } else {
        append_digits(&mut out, n as u64);
    }
    out
}

/// Joins `parts` with `sep` between each two of them, as `parts.join(sep)` does.
pub fn join_texts(parts: &Vec<String>, sep: &str) -> (r: String)
    ensures
        r@ == join(parts@.map_values(|p: String| p@), sep@),
{
    let ghost views = parts@.map_values(|p: String| p@);
    let mut out = String::new();
    let n = parts.len();
    let mut i: usize = 0;
    while i < n
        invariant
            n == parts@.len(),
            i <= n,
            views == parts@.map_values(|p: String| p@),
            out@ == join(views.take(i as int), sep@),
        decreases n - i,
    {
        assert(views.take(i + 1).drop_last() =~= views.take(i as int));
        if i > 0 {
            out.append(sep);
        }
        out.append(parts[i].as_str());
        i = i + 1;
    }
    assert(views.take(n as int) =~= views);
    out
}

/// Replaces every space by `%20`, as the TMDB search query wants it.
pub fn urlencoding(s: &str) -> (r: String)
    ensures
        r@ == encode_spaces(s@),
{
    proof { reveal_strlit("%20"); }
    let mut out = String::new();
    let n = s.unicode_len();
    let mut i: usize = 0;
    while i < n
        invariant
            n == s@.len(),
            i <= n,
            "%20"@ == seq!['%', '2', '0'],
            out@ == encode_spaces(s@.take(i as int)),
        decreases n - i,
    {
        assert(s@.take(i + 1).drop_last() =~= s@.take(i as int));
        let c = s.get_char(i);
        if c == ' ' {
            out.append("%20");
        } else {
            let one = s.substring_char(i, i + 1);
            assert(one@ =~= seq![c]);
            out.append(one);
        }
        i = i + 1;
    }
    assert(s@.take(n as int) =~= s@);
    out
}

/// Whether `needle` occurs in `hay`, as `hay.contains(needle)` tells.
pub fn text_contains(hay: &str, needle: &str) -> (r: bool)
    ensures
        r == occurs_in(hay@, needle@),
{
    let n = hay.unicode_len();
    let m = needle.unicode_len();
    if m > n {
        assert forall|i: int| !occurs_at(hay@, needle@, i) by {}
        return false;
    }
    if m == 0 {
        assert(hay@.subrange(0, 0) =~= needle@);
        assert(occurs_at(hay@, needle@, 0));
        return true;
    }
    let want = String::from_str(needle);
    let mut i: usize = 0;
    while i <= n - m
        invariant
            n == hay@.len(),
            m == needle@.len(),
            0 < m <= n,
            i <= n - m + 1,
            want@ == needle@,
            forall|j: int| 0 <= j < i ==> !occurs_at(hay@, needle@, j),
        decreases n - m + 1 - i,
    {
        let part = String::from_str(hay.substring_char(i, i + m));
        if part == want {
            assert(occurs_at(hay@, needle@, i as int));
            return true;
        }
        i = i + 1;
    }
    assert forall|j: int| !occurs_at(hay@, needle@, j) by {
        if 0 <= j && j + m <= n {
            assert(j < i);
        }
    }
    false
}

} // verus!
