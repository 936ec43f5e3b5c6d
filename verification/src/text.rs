//! Text primitives, stated over sequences of characters.
use vstd::prelude::*;

verus! {

/// `String::push` appends one character.
pub assume_specification[ String::push ](s: &mut String, c: char)
    ensures
        final(s)@ == old(s)@.push(c),
;

/// What `String::from_utf8_lossy` makes of bytes that are no UTF-8.
pub uninterp spec fn repaired(bytes: Seq<u8>) -> Seq<char>;

/// The text that bytes stand for: what they encode where they are UTF-8, else what
/// `String::from_utf8_lossy` makes of them.
pub open spec fn lossy(bytes: Seq<u8>) -> Seq<char> {
    if vstd::utf8::valid_utf8(bytes) {
        vstd::utf8::decode_utf8(bytes)
    } else {
        repaired(bytes)
    }
}

/// Calls `String::from_utf8_lossy`. Valid UTF-8 is decoded as it stands; of other bytes
/// the result is a function of them.
#[verifier::external_body]
pub(crate) fn from_utf8_lossy(bytes: &[u8]) -> (r: String)
    ensures
        r@ == lossy(bytes@),
        !vstd::utf8::valid_utf8(bytes@) ==> r@ == repaired(bytes@),
{
    String::from_utf8_lossy(bytes).into_owned()
}

/// The characters of `s`, in order.
pub fn to_chars(s: &str) -> (r: Vec<char>)
    ensures
        r@ == s@,
{
    let mut out: Vec<char> = Vec::new();
    for c in it: s.chars()
        invariant
            out@ =~= s@.take(it.index() as int),
            it.seq() == s@,
    {
        out.push(c);
    }
    out
}

/// The string made of the characters `v[from..to]`.
pub fn from_chars(v: &Vec<char>, from: usize, to: usize) -> (r: String)
    requires
        from <= to <= v.len(),
    ensures
        r@ == v@.subrange(from as int, to as int),
{
    let mut out = String::new();
    let mut i: usize = from;
    while i < to
        invariant
            from <= i <= to <= v.len(),
            out@ == v@.subrange(from as int, i as int),
        decreases to - i,
    {
        out.push(v[i]);
        proof {
            assert(v@.subrange(from as int, i + 1) =~= v@.subrange(from as int, i as int).push(
                v@[i as int],
            ));
        }
        i = i + 1;
    }
    out
}

/// Whether two texts hold the same characters.
pub fn same(a: &str, b: &str) -> (r: bool)
    ensures
        r == (a@ == b@),
{
    let x = a.as_bytes();
    let y = b.as_bytes();
    proof {
        vstd::utf8::encode_utf8_decode_utf8(a@);
        vstd::utf8::encode_utf8_decode_utf8(b@);
    }
    if x.len() != y.len() {
        return false;
    }
    let mut i: usize = 0;
    while i < x.len()
        invariant
            x@ == vstd::utf8::encode_utf8(a@),
            y@ == vstd::utf8::encode_utf8(b@),
            x.len() == y.len(),
            i <= x.len(),
            forall|k: int| 0 <= k < i ==> x@[k] == y@[k],
        decreases x.len() - i,
    {
        if x[i] != y[i] {
            return false;
        }
        i = i + 1;
    }
    assert(x@ =~= y@);
    true
}

/// The characters of each text of a list.
pub open spec fn texts(v: Seq<String>) -> Seq<Seq<char>> {
    Seq::new(v.len(), |i: int| v[i]@)
}

/// `a` and `b`, one behind the other.
pub fn join2(a: &str, b: &str) -> (r: String)
    ensures
        r@ == a@ + b@,
{
    let mut s = a.to_string();
    s.append(b);
    s
}

/// `a`, `b` and `c`, one behind the other.
pub fn join3(a: &str, b: &str, c: &str) -> (r: String)
    ensures
        r@ == a@ + b@ + c@,
{
    let mut s = a.to_string();
    s.append(b);
    s.append(c);
    s
}

// ---- search ----

/// Whether `p` stands in `s` at position `i`.
pub open spec fn stands_at(s: Seq<char>, p: Seq<char>, i: int) -> bool {
    0 <= i && i + p.len() <= s.len() && s.subrange(i, i + p.len()) == p
}

/// Whether `p` stands anywhere in `s`.
pub open spec fn holds(s: Seq<char>, p: Seq<char>) -> bool {
    exists|i: int| stands_at(s, p, i)
}

/// The first place, at or behind `from`, where `p` stands in `s`.
pub open spec fn place_of(s: Seq<char>, p: Seq<char>, from: int) -> Option<int>
    decreases s.len() + 1 - from,
{
    if from < 0 || from + p.len() > s.len() {
        None
    } else if stands_at(s, p, from) {
        Some(from)
    } else {
        place_of(s, p, from + 1)
    }
}

proof fn lemma_place_of(s: Seq<char>, p: Seq<char>, from: int)
    requires
        0 <= from,
    ensures
        match place_of(s, p, from) {
            Some(i) => from <= i && stands_at(s, p, i),
            None => forall|i: int| from <= i ==> !stands_at(s, p, i),
        },
    decreases s.len() + 1 - from,
{
    if from + p.len() <= s.len() && !stands_at(s, p, from) {
        lemma_place_of(s, p, from + 1);
        assert forall|i: int| from <= i && place_of(s, p, from) is None implies !stands_at(
            s,
            p,
            i,
        ) by {
            if i > from {
                assert(from + 1 <= i);
            }
        }
    }
}

/// The first place, at or behind `from`, where `p` stands in `v`.
pub fn find_chars(v: &Vec<char>, p: &Vec<char>, from: usize) -> (r: Option<usize>)
    ensures
        match r {
            Some(i) => place_of(v@, p@, from as int) == Some(i as int) && from <= i && i + p.len()
                <= v.len(),
            None => place_of(v@, p@, from as int) is None,
        },
{
    if p.len() > v.len() {
        return None;
    }
    let last: usize = v.len() - p.len();
    let mut i: usize = from;
    while i <= last
        invariant
            from <= i,
            last == v.len() - p.len(),
            p.len() <= v.len(),
            place_of(v@, p@, from as int) == place_of(v@, p@, i as int),
        decreases last + 1 - i,
    {
        let mut k: usize = 0;
        while k < p.len() && v[i + k] == p[k]
            invariant
                i <= last,
                last == v.len() - p.len(),
                p.len() <= v.len(),
                k <= p.len(),
                forall|m: int| 0 <= m < k ==> v@[i + m] == p@[m],
            decreases p.len() - k,
        {
            k = k + 1;
        }
        if k == p.len() {
            assert(v@.subrange(i as int, i + p@.len()) =~= p@);
            return Some(i);
        }
        assert(v@.subrange(i as int, i + p@.len())[k as int] != p@[k as int]);
        if i == last {
            assert(place_of(v@, p@, i + 1) is None);
            return None;
        }
        i = i + 1;
    }
    None
}

/// Whether `p` stands anywhere in `s`.
pub fn contains(s: &str, p: &str) -> (r: bool)
    ensures
        r == holds(s@, p@),
{
    let v = to_chars(s);
    let q = to_chars(p);
    proof {
        lemma_place_of(s@, p@, 0);
    }
    match find_chars(&v, &q, 0) {
        Some(_) => true,
        None => false,
    }
}

/// Whether `s` begins with `p`.
pub open spec fn begins(s: Seq<char>, p: Seq<char>) -> bool {
    stands_at(s, p, 0)
}

/// Whether `s` ends with `p`.
pub open spec fn ends(s: Seq<char>, p: Seq<char>) -> bool {
    stands_at(s, p, s.len() - p.len())
}

fn stands(v: &Vec<char>, p: &Vec<char>, i: usize) -> (r: bool)
    requires
        i + p.len() <= v.len(),
    ensures
        r == stands_at(v@, p@, i as int),
{
    let mut k: usize = 0;
    while k < p.len()
        invariant
            i + p.len() <= v.len(),
            k <= p.len(),
            forall|m: int| 0 <= m < k ==> v@[i + m] == p@[m],
        decreases p.len() - k,
    {
        if v[i + k] != p[k] {
            assert(v@.subrange(i as int, i + p@.len())[k as int] != p@[k as int]);
            return false;
        }
        k = k + 1;
    }
    assert(v@.subrange(i as int, i + p@.len()) =~= p@);
    true
}

/// Whether `s` begins with `p`.
pub fn starts_with(s: &str, p: &str) -> (r: bool)
    ensures
        r == begins(s@, p@),
{
    let v = to_chars(s);
    let q = to_chars(p);
    q.len() <= v.len() && stands(&v, &q, 0)
}

/// Whether `s` ends with `p`.
pub fn ends_with(s: &str, p: &str) -> (r: bool)
    ensures
        r == ends(s@, p@),
{
    let v = to_chars(s);
    let q = to_chars(p);
    q.len() <= v.len() && stands(&v, &q, v.len() - q.len())
}

/// The text of `s` behind its first `n` characters.
pub fn tail_from(s: &str, n: usize) -> (r: String)
    requires
        n <= s@.len(),
    ensures
        r@ == s@.skip(n as int),
{
    let v = to_chars(s);
    let r = from_chars(&v, n, v.len());
    assert(v@.subrange(n as int, v@.len() as int) =~= s@.skip(n as int));
    r
}

/// The first place of a character at or behind `from`.
pub open spec fn char_at(s: Seq<char>, c: char, from: int) -> Option<int>
    decreases s.len() - from,
{
    if from < 0 || from >= s.len() {
        None
    } else if s[from] == c {
        Some(from)
    } else {
        char_at(s, c, from + 1)
    }
}

/// The first place of a character at or behind `from`.
pub fn find_char(v: &Vec<char>, c: char, from: usize) -> (r: Option<usize>)
    ensures
        match r {
            Some(i) => char_at(v@, c, from as int) == Some(i as int) && from <= i < v.len(),
            None => char_at(v@, c, from as int) is None,
        },
{
    let mut i: usize = from;
    while i < v.len()
        invariant
            from <= i,
            char_at(v@, c, from as int) == char_at(v@, c, i as int),
        decreases v.len() - i,
    {
        if v[i] == c {
            return Some(i);
        }
        i = i + 1;
    }
    None
}

// ---- white space ----

/// The characters with the Unicode property `White_Space`.
pub open spec fn is_white(c: char) -> bool {
    let n = c as int;
    ||| 0x9 <= n <= 0xd
    ||| n == 0x20
    ||| n == 0x85
    ||| n == 0xa0
    ||| n == 0x1680
    ||| 0x2000 <= n <= 0x200a
    ||| n == 0x2028
    ||| n == 0x2029
    ||| n == 0x202f
    ||| n == 0x205f
    ||| n == 0x3000
}

/// Whether a character is white space.
pub fn is_space(c: char) -> (r: bool)
    ensures
        r == is_white(c),
{
    let n: u32 = c as u32;
    (0x9 <= n && n <= 0xd) || n == 0x20 || n == 0x85 || n == 0xa0 || n == 0x1680 || (0x2000 <= n
        && n <= 0x200a) || n == 0x2028 || n == 0x2029 || n == 0x202f || n == 0x205f || n == 0x3000
}

/// `s` without the white space at its front.
pub open spec fn trim_front(s: Seq<char>) -> Seq<char>
    decreases s.len(),
{
    if s.len() > 0 && is_white(s[0]) {
        trim_front(s.skip(1))
    } else {
        s
    }
}

/// `s` without the white space at its end.
pub open spec fn trim_back(s: Seq<char>) -> Seq<char>
    decreases s.len(),
{
    if s.len() > 0 && is_white(s.last()) {
        trim_back(s.drop_last())
    } else {
        s
    }
}

/// `s` without the white space around it.
pub open spec fn trimmed(s: Seq<char>) -> Seq<char> {
    trim_back(trim_front(s))
}

/// `v[from..to]` without the white space around it.
pub fn trim_range(v: &Vec<char>, from: usize, to: usize) -> (r: String)
    requires
        from <= to <= v.len(),
    ensures
        r@ == trimmed(v@.subrange(from as int, to as int)),
{
    let ghost whole = v@.subrange(from as int, to as int);
    let mut a: usize = from;
    while a < to && is_space(v[a])
        invariant
            from <= a <= to <= v.len(),
            trim_front(whole) == trim_front(v@.subrange(a as int, to as int)),
        decreases to - a,
    {
        assert(v@.subrange(a as int, to as int).skip(1) =~= v@.subrange(a + 1, to as int));
        a = a + 1;
    }
    assert(trim_front(whole) == v@.subrange(a as int, to as int));
    let mut b: usize = to;
    while b > a && is_space(v[b - 1])
        invariant
            from <= a <= b <= to <= v.len(),
            trimmed(whole) == trim_back(v@.subrange(a as int, b as int)),
        decreases b,
    {
        assert(v@.subrange(a as int, b as int).drop_last() =~= v@.subrange(a as int, b - 1));
        b = b - 1;
    }
    from_chars(v, a, b)
}

/// `s` without the white space around it.
pub fn trim(s: &str) -> (r: String)
    ensures
        r@ == trimmed(s@),
{
    let v = to_chars(s);
    assert(v@.subrange(0, v@.len() as int) =~= s@);
    trim_range(&v, 0, v.len())
}

// ---- lines ----

/// A line without the carriage return before its line feed.
pub open spec fn strip_cr(s: Seq<char>) -> Seq<char> {
    if s.len() > 0 && s.last() == '\r' {
        s.drop_last()
    } else {
        s
    }
}

/// The lines of a text. A line ends with a line feed, or with a carriage return
/// and a line feed; a text that ends with a line end has no empty last line.
pub open spec fn lines_of(s: Seq<char>) -> Seq<Seq<char>>
    decreases s.len(),
{
    match char_at(s, '\n', 0) {
        Some(i) if 0 <= i < s.len() => seq![strip_cr(s.take(i))] + lines_of(s.skip(i + 1)),
        _ => if s.len() == 0 {
            seq![]
        } else {
            seq![s]
        },
    }
}

proof fn lemma_char_at_skip(s: Seq<char>, c: char, from: int, i: int)
    requires
        0 <= from <= i,
        from <= s.len(),
    ensures
        char_at(s.skip(from), c, i - from) == match char_at(s, c, i) {
            Some(k) => Some(k - from),
            None => None::<int>,
        },
    decreases s.len() - i,
{
    if i < s.len() {
        assert(s.skip(from)[i - from] == s[i]);
        if s[i] != c {
            lemma_char_at_skip(s, c, from, i + 1);
        }
    }
}

/// The lines of a text.
pub fn lines(s: &str) -> (r: Vec<String>)
    ensures
        texts(r@) == lines_of(s@),
{
    let v = to_chars(s);
    let mut out: Vec<String> = Vec::new();
    let mut pos: usize = 0;
    assert(v@.skip(0) =~= s@);
    loop
        invariant_except_break
            v@ == s@,
            pos <= v.len(),
            texts(out@) + lines_of(v@.skip(pos as int)) =~= lines_of(s@),
        ensures
            texts(out@) =~= lines_of(s@),
        decreases v.len() - pos,
    {
        let ghost before = texts(out@);
        let ghost rest = v@.skip(pos as int);
        proof {
            lemma_char_at_skip(v@, '\n', pos as int, pos as int);
        }
        match find_char(&v, '\n', pos) {
            Some(i) => {
                let mut end: usize = i;
                if end > pos && v[end - 1] == '\r' {
                    end = end - 1;
                }
                let line = from_chars(&v, pos, end);
                assert(rest.take(i - pos) =~= v@.subrange(pos as int, i as int));
                assert(line@ =~= strip_cr(rest.take(i - pos)));
                out.push(line);
                assert(texts(out@) =~= before.push(strip_cr(rest.take(i - pos))));
                assert(rest.skip(i - pos + 1) =~= v@.skip(i + 1));
                pos = i + 1;
            },
            None => {
                if pos < v.len() {
                    let line = from_chars(&v, pos, v.len());
                    assert(line@ =~= rest);
                    out.push(line);
                    assert(texts(out@) =~= before.push(rest));
                }
                break;
            },
        }
    }
    out
}

// ---- numbers ----

/// The character of a decimal digit.
pub open spec fn digit(d: int) -> char {
    (48 + d) as char
}

/// A number in decimal digits, without leading zeros.
pub open spec fn decimal(n: nat) -> Seq<char>
    decreases n,
{
    if n < 10 {
        seq![digit(n as int)]
    } else {
        decimal(n / 10).push(digit((n % 10) as int))
    }
}

/// A number in decimal digits, with a minus sign where it is negative.
pub open spec fn signed(n: int) -> Seq<char> {
    if n < 0 {
        seq!['-'] + decimal((-n) as nat)
    } else {
        decimal(n as nat)
    }
}

/// `n` zeros.
pub open spec fn zeros(n: int) -> Seq<char> {
    Seq::new(
        if n > 0 {
            n as nat
        } else {
            0
        },
        |i: int| '0',
    )
}

/// A number in at least `width` decimal digits, filled up with zeros.
pub open spec fn padded(n: nat, width: int) -> Seq<char> {
    zeros(width - decimal(n).len()) + decimal(n)
}

/// Appends a number in decimal digits.
pub fn push_decimal(out: &mut String, n: u64)
    ensures
        final(out)@ == old(out)@ + decimal(n as nat),
    decreases n,
{
    if n >= 10 {
        push_decimal(out, n / 10);
    }
    let c: char = (48 + (n % 10) as u8) as char;
    out.push(c);
    assert(out@ =~= old(out)@ + decimal(n as nat));
}

/// A number in decimal digits.
pub fn decimal_text(n: u64) -> (r: String)
    ensures
        r@ == decimal(n as nat),
{
    let mut s = String::new();
    push_decimal(&mut s, n);
    assert(s@ =~= decimal(n as nat));
    s
}

/// A signed number in decimal digits.
pub fn signed_text(n: i32) -> (r: String)
    ensures
        r@ == signed(n as int),
{
    let mut s = String::new();
    if n < 0 {
        s.push('-');
        push_decimal(&mut s, (-(n as i64)) as u64);
    } else {
        push_decimal(&mut s, n as u64);
    }
    assert(s@ =~= signed(n as int));
    s
}

/// A number in at least `width` decimal digits.
pub fn padded_text(n: u64, width: usize) -> (r: String)
    ensures
        r@ == padded(n as nat, width as int),
{
    let mut digits = String::new();
    push_decimal(&mut digits, n);
    assert(digits@ =~= decimal(n as nat));
    let len: usize = digits.as_str().unicode_len();
    let mut s = String::new();
    let mut i: usize = len;
    while i < width
        invariant
            len <= i,
            i <= width || i == len,
            s@ =~= zeros(i - len),
        decreases width - i,
    {
        s.push('0');
        i = i + 1;
    }
    s.append(digits.as_str());
    s
}

/// Whether a character is a decimal digit.
pub open spec fn is_digit(c: char) -> bool {
    '0' <= c <= '9'
}

/// The number that decimal digits stand for.
pub open spec fn value(s: Seq<char>) -> nat
    decreases s.len(),
{
    if s.len() == 0 {
        0
    } else {
        value(s.drop_last()) * 10 + (s.last() as nat - 48) as nat
    }
}

/// Whether `s` is made of decimal digits.
pub open spec fn all_digits(s: Seq<char>) -> bool {
    forall|i: int| 0 <= i < s.len() ==> is_digit(#[trigger] s[i])
}

/// The digits of a number that may have a plus sign.
pub open spec fn without_plus(s: Seq<char>) -> Seq<char> {
    if s.len() > 0 && s[0] == '+' {
        s.skip(1)
    } else {
        s
    }
}

/// The number, at most `max`, that a text is the decimal notation of.
pub open spec fn number(s: Seq<char>, max: int) -> Option<nat> {
    let d = without_plus(s);
    if d.len() > 0 && all_digits(d) && value(d) <= max {
        Some(value(d))
    } else {
        None
    }
}

proof fn lemma_value_grows(s: Seq<char>, i: int)
    requires
        0 <= i <= s.len(),
        all_digits(s),
    ensures
        value(s.take(i)) <= value(s),
    decreases s.len() - i,
{
    if i < s.len() {
        assert(s.take(i + 1).drop_last() =~= s.take(i));
        lemma_value_grows(s, i + 1);
    } else {
        assert(s.take(i) =~= s);
    }
}

/// Reads a number of at most `max`.
pub fn parse_number(s: &str, max: u64) -> (r: Option<u64>)
    ensures
        match r {
            Some(n) => number(s@, max as int) == Some(n as nat),
            None => number(s@, max as int) is None,
        },
{
    let v = to_chars(s);
    let mut from: usize = 0;
    if v.len() > 0 && v[0] == '+' {
        from = 1;
    }
    let ghost d = without_plus(s@);
    assert(d =~= v@.skip(from as int));
    if from == v.len() {
        return None;
    }
    let mut n: u64 = 0;
    let mut i: usize = from;
    assert(d.take(0) =~= Seq::<char>::empty());
    while i < v.len()
        invariant
            from <= i <= v.len(),
            v@ == s@,
            d == without_plus(s@),
            d == v@.skip(from as int),
            n <= max,
            n == value(d.take(i - from)),
            forall|k: int| 0 <= k < i - from ==> is_digit(#[trigger] d[k]),
        decreases v.len() - i,
    {
        let c: char = v[i];
        assert(d[i - from] == c);
        if c < '0' || c > '9' {
            return None;
        }
        let next: u128 = n as u128 * 10 + (c as u32 - 48) as u128;
        assert(d.take(i - from + 1).drop_last() =~= d.take(i - from));
        assert(next == value(d.take(i - from + 1)));
        if next > max as u128 {
            proof {
                if all_digits(d) {
                    lemma_value_grows(d, i - from + 1);
                }
            }
            return None;
        }
        n = next as u64;
        i = i + 1;
    }
    assert(d.take(i - from) =~= d);
    Some(n)
}

// ---- order ----

/// Whether `a` comes before `b`: by the first character in which they differ, a
/// text before its continuations.
pub open spec fn before(a: Seq<char>, b: Seq<char>) -> bool
    decreases a.len(),
{
    if b.len() == 0 {
        false
    } else if a.len() == 0 {
        true
    } else if a[0] != b[0] {
        a[0] < b[0]
    } else {
        before(a.skip(1), b.skip(1))
    }
}

/// Whether `a` comes before `b`.
pub fn is_before(a: &str, b: &str) -> (r: bool)
    ensures
        r == before(a@, b@),
{
    let x = to_chars(a);
    let y = to_chars(b);
    let mut i: usize = 0;
    assert(x@.skip(0) =~= x@);
    assert(y@.skip(0) =~= y@);
    while i < x.len() && i < y.len()
        invariant
            x@ == a@,
            y@ == b@,
            i <= x.len(),
            i <= y.len(),
            before(a@, b@) == before(x@.skip(i as int), y@.skip(i as int)),
        decreases x.len() - i,
    {
        assert(x@.skip(i as int)[0] == x@[i as int]);
        assert(y@.skip(i as int)[0] == y@[i as int]);
        if x[i] != y[i] {
            return x[i] < y[i];
        }
        assert(x@.skip(i as int).skip(1) =~= x@.skip(i + 1));
        assert(y@.skip(i as int).skip(1) =~= y@.skip(i + 1));
        i = i + 1;
    }
    i < y.len()
}

/// The order of texts is transitive.
pub proof fn lemma_before_transitive(a: Seq<char>, b: Seq<char>, c: Seq<char>)
    requires
        before(a, b),
        before(b, c),
    ensures
        before(a, c),
    decreases a.len(),
{
    if a.len() > 0 && a[0] == b[0] && b[0] == c[0] {
        lemma_before_transitive(a.skip(1), b.skip(1), c.skip(1));
    }
}

/// Of two different texts exactly one comes before the other.
pub proof fn lemma_before_total(a: Seq<char>, b: Seq<char>)
    ensures
        a != b ==> (before(a, b) <==> !before(b, a)),
        a == b ==> !before(a, b),
    decreases a.len(),
{
    if a.len() > 0 && b.len() > 0 {
        lemma_before_total(a.skip(1), b.skip(1));
        if a[0] == b[0] && a.skip(1) == b.skip(1) {
            assert(a =~= seq![a[0]] + a.skip(1));
            assert(b =~= seq![b[0]] + b.skip(1));
        }
    } else if a.len() == 0 && b.len() == 0 {
        assert(a =~= b);
    }
}

// ---- other ----

/// `s` with each `c` replaced by `with`.
pub open spec fn replaced(s: Seq<char>, c: char, with: Seq<char>) -> Seq<char>
    decreases s.len(),
{
    if s.len() == 0 {
        seq![]
    } else {
        replaced(s.drop_last(), c, with) + if s.last() == c {
            with
        } else {
            seq![s.last()]
        }
    }
}

/// `s` with each `c` replaced by `with`.
pub fn replace_char(s: &str, c: char, with: &str) -> (r: String)
    ensures
        r@ == replaced(s@, c, with@),
{
    let v = to_chars(s);
    let mut out = String::new();
    let mut i: usize = 0;
    while i < v.len()
        invariant
            i <= v.len(),
            v@ == s@,
            out@ == replaced(v@.take(i as int), c, with@),
        decreases v.len() - i,
    {
        assert(v@.take(i + 1).drop_last() =~= v@.take(i as int));
        if v[i] == c {
            out.append(with);
        } else {
            out.push(v[i]);
        }
        i = i + 1;
    }
    assert(v@.take(i as int) =~= s@);
    out
}

/// What `str::to_lowercase` makes of a text that is not all ASCII.
pub uninterp spec fn unicode_lowercase(s: Seq<char>) -> Seq<char>;

/// The lower-case letter of an ASCII letter, and any other character itself.
pub open spec fn ascii_lower(c: char) -> char {
    if 'A' <= c <= 'Z' {
        (c as int + 32) as char
    } else {
        c
    }
}

/// Whether all characters are ASCII.
pub open spec fn ascii_only(s: Seq<char>) -> bool {
    forall|i: int| 0 <= i < s.len() ==> (#[trigger] s[i]) as int <= 0x7f
}

/// A text in lower case: an ASCII text one character for one, any other as
/// `str::to_lowercase` does it.
pub open spec fn lowercase(s: Seq<char>) -> Seq<char> {
    if ascii_only(s) {
        Seq::new(s.len(), |i: int| ascii_lower(s[i]))
    } else {
        unicode_lowercase(s)
    }
}

/// Calls `str::to_lowercase`. An ASCII text has its letters `A` to `Z` replaced by `a` to
/// `z`, one for one; of another text the result is a function of it.
#[verifier::external_body]
pub(crate) fn to_lowercase(s: &str) -> (r: String)
    ensures
        r@ == lowercase(s@),
        !ascii_only(s@) ==> r@ == unicode_lowercase(s@),
{
    s.to_lowercase()
}

/// Whether a list holds a text.
pub open spec fn listed(v: Seq<String>, s: Seq<char>) -> bool {
    exists|i: int| 0 <= i < v.len() && (#[trigger] v[i])@ == s
}

/// Whether a list holds a text.
pub fn is_listed(v: &Vec<String>, s: &str) -> (r: bool)
    ensures
        r == listed(v@, s@),
{
    let mut i: usize = 0;
    while i < v.len()
        invariant
            i <= v.len(),
            forall|k: int| 0 <= k < i ==> (#[trigger] v@[k])@ != s@,
        decreases v.len() - i,
    {
        if same(v[i].as_str(), s) {
            return true;
        }
        i = i + 1;
    }
    false
}

/// `s` with each `pat` in it replaced by `with`, from left to right.
pub open spec fn substituted(s: Seq<char>, pat: Seq<char>, with: Seq<char>) -> Seq<char>
    decreases s.len(),
{
    match place_of(s, pat, 0) {
        Some(i) if 0 <= i && pat.len() > 0 && i + pat.len() <= s.len() => s.take(i) + with
            + substituted(s.skip(i + pat.len()), pat, with),
        _ => s,
    }
}

proof fn lemma_place_of_skip(s: Seq<char>, p: Seq<char>, from: int, i: int)
    requires
        0 <= from <= i,
        from <= s.len(),
    ensures
        place_of(s.skip(from), p, i - from) == match place_of(s, p, i) {
            Some(k) => Some(k - from),
            None => None::<int>,
        },
    decreases s.len() + 1 - i,
{
    if i + p.len() <= s.len() {
        assert(s.skip(from).subrange(i - from, i - from + p.len()) =~= s.subrange(i, i + p.len()));
        if !stands_at(s, p, i) {
            lemma_place_of_skip(s, p, from, i + 1);
        }
    }
}

/// `s` with each `pat` in it replaced by `with`.
pub fn substitute(s: &str, pat: &str, with: &str) -> (r: String)
    requires
        pat@.len() > 0,
    ensures
        r@ == substituted(s@, pat@, with@),
{
    let v = to_chars(s);
    let p = to_chars(pat);
    let mut out = String::new();
    let mut pos: usize = 0;
    assert(v@.skip(0) =~= s@);
    loop
        invariant_except_break
            v@ == s@,
            p@ == pat@,
            p.len() > 0,
            pos <= v.len(),
            out@ + substituted(v@.skip(pos as int), pat@, with@) =~= substituted(s@, pat@, with@),
        ensures
            out@ =~= substituted(s@, pat@, with@),
        decreases v.len() - pos,
    {
        let ghost rest = v@.skip(pos as int);
        proof {
            lemma_place_of_skip(v@, p@, pos as int, pos as int);
            lemma_place_of(rest, p@, 0);
        }
        match find_chars(&v, &p, pos) {
            Some(i) => {
                let ghost before = out@;
                let part = from_chars(&v, pos, i);
                assert(part@ =~= rest.take(i - pos));
                out.append(part.as_str());
                out.append(with);
                assert(rest.skip(i - pos + p@.len()) =~= v@.skip(i + p@.len()));
                let next: usize = i + p.len();
                pos = next;
            },
            None => {
                let part = from_chars(&v, pos, v.len());
                assert(part@ =~= rest);
                out.append(part.as_str());
                break;
            },
        }
    }
    out
}

/// What `char::is_alphanumeric` says of a character that is not ASCII.
pub uninterp spec fn unicode_alphanumeric(c: char) -> bool;

/// Whether a character is a letter or a digit: of ASCII the letters and the decimal
/// digits, and else those of which `char::is_alphanumeric` says so.
pub open spec fn alphanumeric(c: char) -> bool {
    if c as int <= 0x7f {
        '0' <= c <= '9' || 'a' <= c <= 'z' || 'A' <= c <= 'Z'
    } else {
        unicode_alphanumeric(c)
    }
}

/// Calls `char::is_alphanumeric`. Of the ASCII characters it is true of the letters and
/// the decimal digits only; of others the answer is a function of the character.
#[verifier::external_body]
pub(crate) fn is_alphanumeric(c: char) -> (r: bool)
    ensures
        r == alphanumeric(c),
        c as int > 0x7f ==> r == unicode_alphanumeric(c),
{
    c.is_alphanumeric()
}

/// The parts of a text between the characters `c`.
pub open spec fn split_at_char(s: Seq<char>, c: char) -> Seq<Seq<char>>
    decreases s.len(),
{
    match char_at(s, c, 0) {
        Some(i) if 0 <= i < s.len() => seq![s.take(i)] + split_at_char(s.skip(i + 1), c),
        _ => seq![s],
    }
}

/// The parts of a text between the characters `c`.
pub fn split_char(s: &str, c: char) -> (r: Vec<String>)
    ensures
        texts(r@) == split_at_char(s@, c),
        r.len() > 0,
{
    let v = to_chars(s);
    let mut out: Vec<String> = Vec::new();
    let mut pos: usize = 0;
    assert(v@.skip(0) =~= s@);
    loop
        invariant_except_break
            v@ == s@,
            pos <= v.len(),
            texts(out@) + split_at_char(v@.skip(pos as int), c) =~= split_at_char(s@, c),
        ensures
            texts(out@) =~= split_at_char(s@, c),
            out.len() > 0,
        decreases v.len() - pos,
    {
        let ghost so_far = texts(out@);
        let ghost rest = v@.skip(pos as int);
        proof {
            lemma_char_at_skip(v@, c, pos as int, pos as int);
        }
        match find_char(&v, c, pos) {
            Some(i) => {
                let part = from_chars(&v, pos, i);
                assert(part@ =~= rest.take(i - pos));
                out.push(part);
                assert(texts(out@) =~= so_far.push(rest.take(i - pos)));
                assert(rest.skip(i - pos + 1) =~= v@.skip(i + 1));
                pos = i + 1;
            },
            None => {
                let part = from_chars(&v, pos, v.len());
                assert(part@ =~= rest);
                out.push(part);
                assert(texts(out@) =~= so_far.push(rest));
                break;
            },
        }
    }
    out
}

// ---- laws ----

/// A text is found in another if and only if its characters stand there in a row.
pub proof fn law_found_in_a_row(s: Seq<char>, p: Seq<char>)
    ensures
        holds(s, p) <==> exists|i: int|
            0 <= i && i + p.len() <= s.len() && #[trigger] s.subrange(i, i + p.len()) == p,
        begins(s, p) <==> p.len() <= s.len() && forall|k: int|
            0 <= k < p.len() ==> s[k] == #[trigger] p[k],
        ends(s, p) <==> p.len() <= s.len() && forall|k: int|
            0 <= k < p.len() ==> s[s.len() - p.len() + k] == #[trigger] p[k],
{
    if holds(s, p) {
        let i = choose|i: int| stands_at(s, p, i);
        assert(s.subrange(i, i + p.len()) == p);
    }
    if exists|i: int| 0 <= i && i + p.len() <= s.len() && #[trigger] s.subrange(i, i + p.len()) == p {
        let i = choose|i: int|
            0 <= i && i + p.len() <= s.len() && #[trigger] s.subrange(i, i + p.len()) == p;
        assert(stands_at(s, p, i));
    }
    if p.len() <= s.len() {
        let front = s.subrange(0, p.len() as int);
        let back = s.subrange(s.len() - p.len(), s.len() as int);
        if begins(s, p) {
            assert forall|k: int| 0 <= k < p.len() implies s[k] == #[trigger] p[k] by {
                assert(front[k] == s[k]);
            }
        }
        if forall|k: int| 0 <= k < p.len() ==> s[k] == #[trigger] p[k] {
            assert(front =~= p);
        }
        if ends(s, p) {
            assert forall|k: int| 0 <= k < p.len() implies s[s.len() - p.len() + k]
                == #[trigger] p[k] by {
                assert(back[k] == s[s.len() - p.len() + k]);
            }
        }
        if forall|k: int| 0 <= k < p.len() ==> s[s.len() - p.len() + k] == #[trigger] p[k] {
            assert(back =~= p);
        }
    }
}

/// The place that is found is the first.
pub proof fn law_first_place(s: Seq<char>, p: Seq<char>, from: int)
    requires
        0 <= from,
    ensures
        match place_of(s, p, from) {
            Some(i) => from <= i && i + p.len() <= s.len() && s.subrange(i, i + p.len()) == p
                && forall|j: int|
                from <= j < i ==> #[trigger] s.subrange(j, j + p.len()) != p,
            None => forall|j: int|
                from <= j && j + p.len() <= s.len() ==> #[trigger] s.subrange(j, j + p.len()) != p,
        },
    decreases s.len() + 1 - from,
{
    if from + p.len() <= s.len() && !stands_at(s, p, from) {
        law_first_place(s, p, from + 1);
    }
}

/// The place of a character that is found is the first.
pub proof fn law_first_char(s: Seq<char>, c: char, from: int)
    requires
        0 <= from,
    ensures
        match char_at(s, c, from) {
            Some(i) => from <= i < s.len() && s[i] == c && forall|j: int|
                from <= j < i ==> #[trigger] s[j] != c,
            None => forall|j: int| from <= j < s.len() ==> #[trigger] s[j] != c,
        },
    decreases s.len() - from,
{
    if from < s.len() && s[from] != c {
        law_first_char(s, c, from + 1);
    }
}

proof fn lemma_trim_front(s: Seq<char>) -> (i: int)
    ensures
        0 <= i <= s.len(),
        trim_front(s) == s.skip(i),
        forall|k: int| 0 <= k < i ==> is_white(#[trigger] s[k]),
        i < s.len() ==> !is_white(s[i]),
    decreases s.len(),
{
    if s.len() > 0 && is_white(s[0]) {
        let j = lemma_trim_front(s.skip(1));
        assert(s.skip(1).skip(j) =~= s.skip(j + 1));
        assert forall|k: int| 0 <= k < j + 1 implies is_white(#[trigger] s[k]) by {
            if k > 0 {
                assert(s.skip(1)[k - 1] == s[k]);
            }
        }
        if j + 1 < s.len() {
            assert(s.skip(1)[j] == s[j + 1]);
        }
        j + 1
    } else {
        assert(s.skip(0) =~= s);
        0
    }
}

proof fn lemma_trim_back(s: Seq<char>) -> (i: int)
    ensures
        0 <= i <= s.len(),
        trim_back(s) == s.take(i),
        forall|k: int| i <= k < s.len() ==> is_white(#[trigger] s[k]),
        i > 0 ==> !is_white(s[i - 1]),
    decreases s.len(),
{
    if s.len() > 0 && is_white(s.last()) {
        let j = lemma_trim_back(s.drop_last());
        assert(s.drop_last().take(j) =~= s.take(j));
        assert forall|k: int| j <= k < s.len() implies is_white(#[trigger] s[k]) by {
            if k < s.len() - 1 {
                assert(s.drop_last()[k] == s[k]);
            }
        }
        if j > 0 {
            assert(s.drop_last()[j - 1] == s[j - 1]);
        }
        j
    } else {
        assert(s.take(s.len() as int) =~= s);
        s.len() as int
    }
}

/// Trimming takes white space away at the ends, all of it and nothing else.
pub proof fn law_trimmed(s: Seq<char>)
    ensures
        exists|i: int, j: int|
            0 <= i <= j <= s.len() && trimmed(s) == #[trigger] s.subrange(i, j) && (forall|k: int|
                0 <= k < i || j <= k < s.len() ==> is_white(#[trigger] s[k])),
        trimmed(s).len() > 0 ==> !is_white(trimmed(s)[0]) && !is_white(trimmed(s).last()),
        is_white(' ') && is_white('\t') && is_white('\n') && is_white('\r'),
        forall|c: char| 0x21 <= c as int <= 0x7e ==> !#[trigger] is_white(c),
{
    let i = lemma_trim_front(s);
    let f = trim_front(s);
    let m = lemma_trim_back(f);
    let j = i + m;
    assert(f.take(m) =~= s.subrange(i, j));
    assert forall|k: int| 0 <= k < i || j <= k < s.len() implies is_white(#[trigger] s[k]) by {
        if k >= j {
            assert(f[k - i] == s[k]);
        }
    }
    if m > 0 {
        assert(f[0] == s[i]);
    }
}

/// A line ends at a line feed, without the carriage return before it; the rest of the text
/// has the lines that follow.
pub proof fn law_lines(line: Seq<char>, rest: Seq<char>)
    requires
        forall|k: int| 0 <= k < line.len() ==> #[trigger] line[k] != '\n',
    ensures
        lines_of(line + seq!['\n'] + rest) == seq![
            if line.len() > 0 && line[line.len() - 1] == '\r' {
                line.take(line.len() - 1)
            } else {
                line
            },
        ] + lines_of(rest),
        lines_of(line) == if line.len() == 0 {
            seq![]
        } else {
            seq![line]
        },
{
    let s = line + seq!['\n'] + rest;
    law_first_char(s, '\n', 0);
    law_first_char(line, '\n', 0);
    assert(s[line.len() as int] == '\n');
    assert forall|j: int| 0 <= j < line.len() implies #[trigger] s[j] != '\n' by {
        assert(s[j] == line[j]);
    }
    assert(char_at(s, '\n', 0) == Some(line.len() as int));
    assert(s.take(line.len() as int) =~= line);
    assert(s.skip(line.len() as int + 1) =~= rest);
    if line.len() > 0 {
        assert(line.drop_last() =~= line.take(line.len() - 1));
    }
}

/// A number is written in decimal digits: the last one is what is left when it is divided by
/// ten, and the others write what comes of the division.
pub proof fn law_decimal(n: nat)
    ensures
        decimal(n).len() > 0,
        decimal(n)[decimal(n).len() - 1] as int == '0' as int + n % 10,
        n >= 10 ==> decimal(n).take(decimal(n).len() - 1) == decimal(n / 10),
        n < 10 ==> decimal(n).len() == 1,
{
    if n >= 10 {
        assert(decimal(n).take(decimal(n).len() - 1) =~= decimal(n / 10));
    }
}

/// A negative number has a minus sign before its digits, any other has none.
pub proof fn law_signed(n: nat)
    ensures
        signed(n as int) == decimal(n),
        n > 0 ==> signed(-n) == seq!['-'] + decimal(n),
{
}

/// A number that is filled up has at least the width that is asked for, zeros before its
/// digits, and no more zeros than it must have.
pub proof fn law_padded(n: nat, width: int)
    ensures
        padded(n, width).len() == if width > decimal(n).len() {
            width
        } else {
            decimal(n).len() as int
        },
        forall|i: int|
            0 <= i < padded(n, width).len() - decimal(n).len() ==> #[trigger] padded(n, width)[i]
                == '0',
        padded(n, width).skip(padded(n, width).len() - decimal(n).len()) == decimal(n),
{
    assert(padded(n, width).skip(padded(n, width).len() - decimal(n).len()) =~= decimal(n));
}

/// A number that was written is read back, if it is not too large, with or without a plus
/// sign before it.
pub proof fn law_number_reads_back(n: nat, max: int)
    ensures
        n <= max ==> number(decimal(n), max) == Some(n) && number(seq!['+'] + decimal(n), max)
            == Some(n),
        n > max ==> number(decimal(n), max) is None,
        number(seq![], max) is None,
    decreases n,
{
    lemma_decimal_value(n);
    let d = decimal(n);
    assert(is_digit(d[0]));
    assert((seq!['+'] + d).skip(1) =~= d);
    assert(without_plus(d) == d);
}

proof fn lemma_decimal_value(n: nat)
    ensures
        value(decimal(n)) == n,
        all_digits(decimal(n)),
        decimal(n).len() > 0,
    decreases n,
{
    if n >= 10 {
        lemma_decimal_value(n / 10);
        let d = decimal(n);
        let front = decimal(n / 10);
        assert(d.drop_last() =~= front);
        assert forall|i: int| 0 <= i < d.len() implies is_digit(#[trigger] d[i]) by {
            if i < front.len() {
                assert(d[i] == front[i]);
            }
        }
    } else {
        assert(decimal(n).drop_last() =~= Seq::<char>::empty());
        reveal_with_fuel(value, 2);
    }
}

/// Nothing but decimal digits, behind a plus sign if there is one, is a number; one digit
/// more makes it ten times as large, and adds the digit.
pub proof fn law_number_is_digits(s: Seq<char>, c: char, max: int)
    requires
        s.len() > 0,
        s[0] != '+',
    ensures
        number(s, max) matches Some(n) ==> forall|i: int|
            0 <= i < s.len() ==> '0' <= #[trigger] s[i] && s[i] <= '9',
        number(s, max) matches Some(n) ==> ('0' <= c <= '9' && n * 10 + (c as int - '0' as int)
            <= max ==> (number(s.push(c), max) matches Some(m) && m == n * 10 + (c as int
            - '0' as int))),
        !('0' <= c <= '9') ==> number(s.push(c), max) is None,
{
    let t = s.push(c);
    assert(t.drop_last() =~= s);
    if number(s, max) is Some {
        assert forall|i: int| 0 <= i < s.len() implies '0' <= #[trigger] s[i] && s[i] <= '9' by {
            assert(is_digit(s[i]));
        }
        if is_digit(c) {
            assert forall|i: int| 0 <= i < t.len() implies is_digit(#[trigger] t[i]) by {
                if i < s.len() {
                    assert(t[i] == s[i]);
                    assert(is_digit(s[i]));
                }
            }
        }
    }
    if !('0' <= c <= '9') {
        assert(t[s.len() as int] == c);
        assert(!is_digit(t[s.len() as int]));
    }
}

/// Texts are ordered by the first character in which they differ; a text comes before one
/// that it begins.
pub proof fn law_order_of_texts(a: Seq<char>, b: Seq<char>, k: int)
    requires
        0 <= k <= a.len(),
        k <= b.len(),
        forall|i: int| 0 <= i < k ==> #[trigger] a[i] == b[i],
        k < a.len() && k < b.len() ==> a[k] != b[k],
    ensures
        before(a, b) <==> k < b.len() && (k < a.len() ==> a[k] < b[k]),
        before(b, a) <==> k < a.len() && (k < b.len() ==> b[k] < a[k]),
    decreases k,
{
    if k > 0 {
        let x = a.skip(1);
        let y = b.skip(1);
        assert forall|i: int| 0 <= i < k - 1 implies #[trigger] x[i] == y[i] by {
            assert(a[i + 1] == b[i + 1]);
        }
        assert(a[0] == b[0]);
        law_order_of_texts(x, y, k - 1);
    }
}

/// Replacing a character goes part by part: it is replaced wherever it stands, and nothing
/// else is changed.
pub proof fn law_replaced(a: Seq<char>, b: Seq<char>, c: char, with: Seq<char>)
    ensures
        replaced(a + b, c, with) == replaced(a, c, with) + replaced(b, c, with),
        replaced(seq![c], c, with) == with,
        (forall|i: int| 0 <= i < a.len() ==> #[trigger] a[i] != c) ==> replaced(a, c, with) == a,
    decreases a.len() + b.len(),
{
    let one = seq![c];
    assert(one.drop_last() =~= Seq::<char>::empty());
    reveal_with_fuel(replaced, 2);
    assert(replaced(one, c, with) =~= with);
    if b.len() > 0 {
        law_replaced(a, b.drop_last(), c, with);
        assert((a + b).drop_last() =~= a + b.drop_last());
        assert(replaced(a + b, c, with) =~= replaced(a, c, with) + replaced(b, c, with));
    } else {
        assert(a + b =~= a);
        assert(replaced(a, c, with) + replaced(b, c, with) =~= replaced(a, c, with));
    }
    lemma_not_replaced(a, c, with);
}

proof fn lemma_not_replaced(a: Seq<char>, c: char, with: Seq<char>)
    ensures
        (forall|i: int| 0 <= i < a.len() ==> #[trigger] a[i] != c) ==> replaced(a, c, with) == a,
    decreases a.len(),
{
    if a.len() > 0 {
        lemma_not_replaced(a.drop_last(), c, with);
        if forall|i: int| 0 <= i < a.len() ==> #[trigger] a[i] != c {
            assert forall|i: int| 0 <= i < a.drop_last().len() implies #[trigger] a.drop_last()[i]
                != c by {
                assert(a.drop_last()[i] == a[i]);
            }
            assert(a.drop_last() + seq![a.last()] =~= a);
        }
    }
}

/// A pattern is replaced where it stands first, and then in what follows; a text without it
/// is left as it is.
pub proof fn law_substituted(s: Seq<char>, pat: Seq<char>, with: Seq<char>, i: int)
    requires
        pat.len() > 0,
        0 <= i,
        forall|j: int| 0 <= j < i ==> #[trigger] s.subrange(j, j + pat.len()) != pat,
    ensures
        i + pat.len() <= s.len() && s.subrange(i, i + pat.len()) == pat ==> substituted(
            s,
            pat,
            with,
        ) == s.take(i) + with + substituted(s.skip(i + pat.len()), pat, with),
        i + pat.len() > s.len() ==> substituted(s, pat, with) == s,
{
    law_first_place(s, pat, 0);
}

/// Splitting goes from one separator to the next.
pub proof fn law_split(part: Seq<char>, c: char, rest: Seq<char>)
    requires
        forall|k: int| 0 <= k < part.len() ==> #[trigger] part[k] != c,
    ensures
        split_at_char(part + seq![c] + rest, c) == seq![part] + split_at_char(rest, c),
        split_at_char(part, c) == seq![part],
{
    let s = part + seq![c] + rest;
    law_first_char(s, c, 0);
    law_first_char(part, c, 0);
    assert(s[part.len() as int] == c);
    assert forall|j: int| 0 <= j < part.len() implies #[trigger] s[j] != c by {
        assert(s[j] == part[j]);
    }
    assert(char_at(s, c, 0) == Some(part.len() as int));
    assert(s.take(part.len() as int) =~= part);
    assert(s.skip(part.len() as int + 1) =~= rest);
}

/// An ASCII text in lower case has no capital letter, and the same letters otherwise.
pub proof fn law_lowercase(s: Seq<char>, i: int)
    requires
        ascii_only(s),
        0 <= i < s.len(),
    ensures
        lowercase(s).len() == s.len(),
        'A' <= s[i] <= 'Z' ==> lowercase(s)[i] as int == s[i] as int - 'A' as int + 'a' as int,
        !('A' <= s[i] <= 'Z') ==> lowercase(s)[i] == s[i],
{
}

proof fn lemma_white_front(w: Seq<char>, s: Seq<char>)
    requires
        forall|i: int| 0 <= i < w.len() ==> is_white(#[trigger] w[i]),
        s.len() > 0 ==> !is_white(s[0]),
    ensures
        trim_front(w + s) == s,
    decreases w.len(),
{
    if w.len() > 0 {
        assert((w + s)[0] == w[0]);
        assert((w + s).skip(1) =~= w.skip(1) + s);
        assert forall|i: int| 0 <= i < w.skip(1).len() implies is_white(#[trigger] w.skip(1)[i]) by {
            assert(w.skip(1)[i] == w[i + 1]);
        }
        lemma_white_front(w.skip(1), s);
    } else {
        assert(w + s =~= s);
    }
}

proof fn lemma_white_back(s: Seq<char>, w: Seq<char>)
    requires
        forall|i: int| 0 <= i < w.len() ==> is_white(#[trigger] w[i]),
        s.len() > 0 ==> !is_white(s[s.len() - 1]),
    ensures
        trim_back(s + w) == s,
    decreases w.len(),
{
    if w.len() > 0 {
        assert((s + w).last() == w[w.len() - 1]);
        assert((s + w).drop_last() =~= s + w.drop_last());
        assert forall|i: int| 0 <= i < w.drop_last().len() implies is_white(
            #[trigger] w.drop_last()[i],
        ) by {
            assert(w.drop_last()[i] == w[i]);
        }
        lemma_white_back(s, w.drop_last());
    } else {
        assert(s + w =~= s);
    }
}

/// White space around a text that neither begins nor ends with any is trimmed away.
pub proof fn law_white_taken_away(a: Seq<char>, s: Seq<char>, b: Seq<char>)
    requires
        forall|i: int| 0 <= i < a.len() ==> is_white(#[trigger] a[i]),
        forall|i: int| 0 <= i < b.len() ==> is_white(#[trigger] b[i]),
        s.len() > 0,
        !is_white(s[0]),
        !is_white(s[s.len() - 1]),
    ensures
        trimmed(a + s + b) == s,
        trimmed(trimmed(a + s + b)) == trimmed(a + s + b),
{
    let none: Seq<char> = seq![];
    assert(a + s + b =~= a + (s + b));
    assert((s + b)[0] == s[0]);
    lemma_white_front(a, s + b);
    lemma_white_back(s, b);
    lemma_white_front(none, s);
    lemma_white_back(s, none);
    assert(none + s =~= s);
    assert(s + none =~= s);
}

/// The texts of strings are those of each of them.
pub proof fn law_texts(v: Seq<String>, i: int)
    requires
        0 <= i < v.len(),
    ensures
        texts(v).len() == v.len(),
        texts(v)[i] == v[i]@,
{
}

/// A text is listed if one of the strings is that text.
pub proof fn law_listed(v: Seq<String>, t: Seq<char>)
    ensures
        listed(v, t) <==> exists|i: int| 0 <= i < v.len() && (#[trigger] v[i])@ == t,
{
}

/// White space is the blank, the five characters from tab to carriage return, and the spaces and
/// separators that Unicode has beyond these.
pub proof fn law_white(c: char)
    ensures
        is_white(c) <==> {
            let n = c as int;
            ||| 9 <= n <= 13 || n == 32
            ||| n == 0x85 || n == 0xa0 || n == 0x1680
            ||| 0x2000 <= n <= 0x200a
            ||| n == 0x2028 || n == 0x2029 || n == 0x202f || n == 0x205f || n == 0x3000
        },
{
}

} // verus!
