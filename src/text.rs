use vstd::prelude::*;
use vstd::string::StringExecFns;

verus! {

/// ASCII whitespace: tab, line feed, vertical tab, form feed, carriage
/// return and space.
pub open spec fn is_space(b: u8) -> bool {
    b == 9 || b == 10 || b == 11 || b == 12 || b == 13 || b == 32
}

pub open spec fn bytes_view(v: Seq<Vec<u8>>) -> Seq<Seq<u8>> {
    v.map_values(|x: Vec<u8>| x@)
}

/// Maximal runs of non-whitespace bytes, in order.
pub open spec fn words(s: Seq<u8>) -> Seq<Seq<u8>>
    decreases s.len(),
{
    if s.len() == 0 {
        Seq::empty()
    } else {
        let w = words(s.drop_last());
        let b = s.last();
        if is_space(b) {
            w
        } else if s.len() == 1 || is_space(s[s.len() - 2]) {
            w.push(seq![b])
        } else {
            w.update(w.len() - 1, w.last().push(b))
        }
    }
}

proof fn lemma_words_nonempty(s: Seq<u8>)
    requires
        s.len() > 0,
        !is_space(s.last()),
    ensures
        words(s).len() > 0,
    decreases s.len(),
{
    if s.len() > 1 && !is_space(s[s.len() - 2]) {
        lemma_words_nonempty(s.drop_last());
    }
}

/// The whitespace-separated words of `s`.
pub fn split_words(s: &[u8]) -> (r: Vec<Vec<u8>>)
    ensures
        bytes_view(r@) == words(s@),
{
    let mut out: Vec<Vec<u8>> = Vec::new();
    let mut cur: Vec<u8> = Vec::new();
    let mut i: usize = 0;
    while i < s.len()
        invariant
            i <= s@.len(),
            cur@.len() > 0 <==> (i > 0 && !is_space(s@[i - 1])),
            cur@.len() > 0 ==> words(s@.subrange(0, i as int)) == bytes_view(out@).push(cur@),
            cur@.len() == 0 ==> words(s@.subrange(0, i as int)) == bytes_view(out@),
        decreases s@.len() - i,
    {
        let b = s[i];
        let ghost pre = s@.subrange(0, i as int);
        let ghost next = s@.subrange(0, i + 1);
        let ghost old_cur = cur@;
        assert(next.drop_last() =~= pre);
        assert(next.last() == b);
        if b == 9 || b == 10 || b == 11 || b == 12 || b == 13 || b == 32 {
            assert(words(next) == words(pre));
            if cur.len() > 0 {
                let ghost prev_out = bytes_view(out@);
                out.push(cur);
                cur = Vec::new();
                assert(bytes_view(out@) =~= prev_out.push(old_cur));
            }
        } else {
            if cur.len() == 0 {
                if i > 0 {
                    assert(next[next.len() - 2] == s@[i - 1]);
                }
                assert(words(pre) == bytes_view(out@));
                assert(words(next) =~= bytes_view(out@).push(seq![b]));
            } else {
                assert(next[next.len() - 2] == s@[i - 1]);
                assert(words(next) =~= bytes_view(out@).push(cur@.push(b)));
            }
            cur.push(b);
            assert(old_cur.len() == 0 ==> old_cur.push(b) =~= seq![b]);
            assert(cur@ == old_cur.push(b));
        }
        i += 1;
    }
    assert(s@.subrange(0, i as int) =~= s@);
    let ghost before = bytes_view(out@);
    let ghost last = cur@;
    if cur.len() > 0 {
        out.push(cur);
        assert(bytes_view(out@) =~= before.push(last));
    }
    proof {
        assert(bytes_view(out@) =~= words(s@));
    }
    out
}

/// The pieces of `s` between line feeds, as `split('\n')` gives them.
pub open spec fn pieces(s: Seq<u8>) -> Seq<Seq<u8>>
    decreases s.len(),
{
    if s.len() == 0 {
        seq![Seq::empty()]
    } else {
        let p = pieces(s.drop_last());
        if s.last() == 10 {
            p.push(Seq::empty())
        } else {
            p.update(p.len() - 1, p.last().push(s.last()))
        }
    }
}

proof fn lemma_pieces_nonempty(s: Seq<u8>)
    ensures
        pieces(s).len() > 0,
    decreases s.len(),
{
    if s.len() > 0 {
        lemma_pieces_nonempty(s.drop_last());
    }
}

/// The lines of `s`: the pieces between line feeds, without the empty
/// piece after a final line feed.
pub open spec fn lines(s: Seq<u8>) -> Seq<Seq<u8>> {
    let p = pieces(s);
    if p.last().len() == 0 {
        p.drop_last()
    } else {
        p
    }
}

pub fn split_lines(s: &[u8]) -> (r: Vec<Vec<u8>>)
    ensures
        bytes_view(r@) == lines(s@),
{
    let mut out: Vec<Vec<u8>> = Vec::new();
    let mut cur: Vec<u8> = Vec::new();
    let mut i: usize = 0;
    while i < s.len()
        invariant
            i <= s@.len(),
            pieces(s@.subrange(0, i as int)) == bytes_view(out@).push(cur@),
        decreases s@.len() - i,
    {
        let b = s[i];
        let ghost pre = s@.subrange(0, i as int);
        let ghost next = s@.subrange(0, i + 1);
        assert(next.drop_last() =~= pre);
        assert(next.last() == b);
        proof {
            lemma_pieces_nonempty(pre);
        }
        if b == 10 {
            out.push(cur);
            cur = Vec::new();
            assert(pieces(next) =~= bytes_view(out@).push(cur@));
        } else {
            cur.push(b);
            assert(pieces(next) =~= bytes_view(out@).push(cur@));
        }
        i += 1;
    }
    assert(s@.subrange(0, i as int) =~= s@);
    if cur.len() > 0 {
        out.push(cur);
    }
    proof {
        assert(bytes_view(out@) =~= lines(s@));
    }
    out
}

pub open spec fn is_digit(b: u8) -> bool {
    48 <= b <= 57
}

pub open spec fn all_digits(s: Seq<u8>) -> bool {
    forall|i: int| 0 <= i < s.len() ==> is_digit(#[trigger] s[i])
}

/// Decimal value of a digit string.
pub open spec fn digits_value(s: Seq<u8>) -> int
    decreases s.len(),
{
    if s.len() == 0 {
        0
    } else {
        digits_value(s.drop_last()) * 10 + (s.last() - 48)
    }
}

/// What `str::parse::<u64>` gives for `tok`: an optional `+`, then one or
/// more decimal digits whose value fits in 64 bits.
pub open spec fn parsed_u64(tok: Seq<u8>) -> Option<u64> {
    let body = if tok.len() > 0 && tok[0] == 43 {
        tok.drop_first()
    } else {
        tok
    };
    if body.len() > 0 && all_digits(body) && digits_value(body) <= u64::MAX {
        Some(digits_value(body) as u64)
    } else {
        None
    }
}

proof fn lemma_digits_nonneg(s: Seq<u8>)
    requires
        all_digits(s),
    ensures
        digits_value(s) >= 0,
    decreases s.len(),
{
    if s.len() > 0 {
        assert(all_digits(s.drop_last()));
        lemma_digits_nonneg(s.drop_last());
    }
}

proof fn lemma_digits_grow(s: Seq<u8>, i: int, j: int)
    requires
        0 <= i <= j <= s.len(),
        all_digits(s),
    ensures
        digits_value(s.subrange(0, i)) <= digits_value(s.subrange(0, j)),
    decreases j - i,
{
    if i < j {
        lemma_digits_grow(s, i, j - 1);
        assert(s.subrange(0, j).drop_last() =~= s.subrange(0, j - 1));
        assert(all_digits(s.subrange(0, j - 1)));
        lemma_digits_nonneg(s.subrange(0, j - 1));
    }
}

pub fn parse_u64(tok: &[u8]) -> (r: Option<u64>)
    ensures
        r == parsed_u64(tok@),
{
    let ghost body = if tok@.len() > 0 && tok@[0] == 43 {
        tok@.drop_first()
    } else {
        tok@
    };
    let start: usize = if tok.len() > 0 && tok[0] == 43 {
        1
    } else {
        0
    };
    assert(body =~= tok@.subrange(start as int, tok@.len() as int));
    if start == tok.len() {
        return None;
    }
    let mut v: u64 = 0;
    let mut i: usize = start;
    while i < tok.len()
        invariant
            start <= i <= tok@.len(),
            body == tok@.subrange(start as int, tok@.len() as int),
            body == (if tok@.len() > 0 && tok@[0] == 43 {
                tok@.drop_first()
            } else {
                tok@
            }),
            all_digits(body.subrange(0, i - start)),
            v == digits_value(body.subrange(0, i - start)),
        decreases tok@.len() - i,
    {
        let b = tok[i];
        let ghost k = i - start;
        assert(body[k] == b);
        assert(body.subrange(0, k + 1).drop_last() =~= body.subrange(0, k));
        if b < 48 || b > 57 {
            assert(!is_digit(body[k as int]));
            assert(!all_digits(body));
            assert(body == (if tok@.len() > 0 && tok@[0] == 43 {
                tok@.drop_first()
            } else {
                tok@
            }));
            assert(parsed_u64(tok@) is None);
            return None;
        }
        let d = (b - 48) as u64;
        if v > (u64::MAX - d) / 10 {
            proof {
                assert(v * 10 + d > u64::MAX) by (nonlinear_arith)
                    requires
                        v > (u64::MAX - d) / 10,
                        d <= 9,
                ;
                assert(digits_value(body.subrange(0, k + 1)) > u64::MAX);
                if all_digits(body) {
                    lemma_digits_grow(body, k + 1, body.len() as int);
                    assert(body.subrange(0, body.len() as int) =~= body);
                }
                assert(parsed_u64(tok@) is None);
            }
            return None;
        }
        v = v * 10 + d;
        i += 1;
        assert(all_digits(body.subrange(0, i - start)));
    }
    assert(body.subrange(0, i - start) =~= body);
    Some(v)
}

/// Byte-wise equality.
pub fn bytes_equal(a: &[u8], b: &[u8]) -> (r: bool)
    ensures
        r == (a@ == b@),
{
    if a.len() != b.len() {
        return false;
    }
    let mut i: usize = 0;
    while i < a.len()
        invariant
            a@.len() == b@.len(),
            i <= a@.len(),
            forall|j: int| 0 <= j < i ==> a@[j] == b@[j],
        decreases a@.len() - i,
    {
        if a[i] != b[i] {
            return false;
        }
        i += 1;
    }
    assert(a@ =~= b@);
    true
}

/// UTF-8 bytes of a string.
pub open spec fn utf8(s: Seq<char>) -> Seq<u8> {
    vstd::utf8::encode_utf8(s)
}

/// What `String::from_utf8_lossy` makes of some bytes.
pub uninterp spec fn lossy_text(b: Seq<u8>) -> Seq<char>;

/// Relies on `String::from_utf8_lossy`: the text depends on the bytes
/// alone, and valid UTF-8 is decoded unchanged.
#[verifier::external_body]
pub fn text_of(b: &[u8]) -> (r: String)
    ensures
        r@ == lossy_text(b@),
        vstd::utf8::valid_utf8(b@) ==> r@ == vstd::utf8::decode_utf8(b@),
{
    String::from_utf8_lossy(b).into_owned()
}

/// The character of a decimal digit.
pub open spec fn digit_char(d: nat) -> char {
    if d == 0 {
        '0'
    } else if d == 1 {
        '1'
    } else if d == 2 {
        '2'
    } else if d == 3 {
        '3'
    } else if d == 4 {
        '4'
    } else if d == 5 {
        '5'
    } else if d == 6 {
        '6'
    } else if d == 7 {
        '7'
    } else if d == 8 {
        '8'
    } else {
        '9'
    }
}

/// Decimal notation of `n`, without leading zeros.
pub open spec fn decimal(n: nat) -> Seq<char>
    decreases n,
{
    if n < 10 {
        seq![digit_char(n)]
    } else {
        decimal(n / 10).push(digit_char(n % 10))
    }
}

fn digit_str(d: u64) -> (r: &'static str)
    requires
        d < 10,
    ensures
        r@ == seq![digit_char(d as nat)],
{
    proof {
        reveal_strlit("0");
        reveal_strlit("1");
        reveal_strlit("2");
        reveal_strlit("3");
        reveal_strlit("4");
        reveal_strlit("5");
        reveal_strlit("6");
        reveal_strlit("7");
        reveal_strlit("8");
        reveal_strlit("9");
    }
    let r = if d == 0 {
        "0"
    } else if d == 1 {
        "1"
    } else if d == 2 {
        "2"
    } else if d == 3 {
        "3"
    } else if d == 4 {
        "4"
    } else if d == 5 {
        "5"
    } else if d == 6 {
        "6"
    } else if d == 7 {
        "7"
    } else if d == 8 {
        "8"
    } else {
        "9"
    };
    assert(r@ =~= seq![digit_char(d as nat)]);
    r
}

/// Decimal notation of `n`.
pub fn decimal_text(n: u64) -> (r: String)
    ensures
        r@ == decimal(n as nat),
    decreases n,
{
    if n < 10 {
        String::from_str(digit_str(n))
    } else {
        let mut s = decimal_text(n / 10);
        s.append(digit_str(n % 10));
        assert(s@ =~= decimal(n as nat));
        s
    }
}

/// Position of the first `.` in `s`.
pub open spec fn first_dot(s: Seq<u8>) -> Option<int>
    decreases s.len(),
{
    if s.len() == 0 {
        None
    } else {
        match first_dot(s.drop_last()) {
            Some(i) => Some(i),
            None => if s.last() == 46 {
                Some(s.len() - 1)
            } else {
                None
            },
        }
    }
}

/// The first three fraction digits `f` as thousandths; later digits are
/// dropped.
pub open spec fn frac_milli(f: Seq<u8>) -> int {
    if f.len() == 0 {
        0
    } else if f.len() == 1 {
        (f[0] - 48) * 100
    } else if f.len() == 2 {
        (f[0] - 48) * 100 + (f[1] - 48) * 10
    } else {
        (f[0] - 48) * 100 + (f[1] - 48) * 10 + (f[2] - 48)
    }
}

/// The digits before the first `.` (all of `tok` without one).
pub open spec fn int_part(tok: Seq<u8>) -> Seq<u8> {
    match first_dot(tok) {
        Some(d) => tok.subrange(0, d),
        None => tok,
    }
}

/// The digits after the first `.`, if any.
pub open spec fn frac_part(tok: Seq<u8>) -> Seq<u8> {
    match first_dot(tok) {
        Some(d) => tok.subrange(d + 1, tok.len() as int),
        None => Seq::empty(),
    }
}

/// The whole-number part: empty before a non-empty fraction counts as 0.
pub open spec fn whole_part(tok: Seq<u8>) -> Option<u64> {
    if int_part(tok).len() == 0 && first_dot(tok) is Some && frac_part(tok).len() > 0 {
        Some(0)
    } else {
        parsed_u64(int_part(tok))
    }
}

/// A decimal number `int[.frac]` (or `.frac`) in thousandths, truncated;
/// `None` where it is malformed or does not fit in an `i64`.
pub open spec fn parsed_milli(tok: Seq<u8>) -> Option<i64> {
    match whole_part(tok) {
        Some(v) => if all_digits(frac_part(tok)) && v * 1000 + frac_milli(frac_part(tok))
            <= i64::MAX {
            Some((v * 1000 + frac_milli(frac_part(tok))) as i64)
        } else {
            None
        },
        None => None,
    }
}

proof fn lemma_first_dot(s: Seq<u8>, i: int)
    requires
        0 <= i <= s.len(),
        forall|j: int| 0 <= j < i ==> s[j] != 46,
    ensures
        first_dot(s.subrange(0, i)) is None,
    decreases i,
{
    if i > 0 {
        assert(s.subrange(0, i).drop_last() =~= s.subrange(0, i - 1));
        lemma_first_dot(s, i - 1);
    }
}

proof fn lemma_first_dot_extend(s: Seq<u8>, i: int, k: int)
    requires
        0 <= i < k <= s.len(),
        s[i] == 46,
        first_dot(s.subrange(0, i)) is None,
    ensures
        first_dot(s.subrange(0, k)) == Some(i),
    decreases k - i,
{
    if k == i + 1 {
        assert(s.subrange(0, k).drop_last() =~= s.subrange(0, i));
    } else {
        lemma_first_dot_extend(s, i, k - 1);
        assert(s.subrange(0, k).drop_last() =~= s.subrange(0, k - 1));
    }
}

fn slice_to_vec(s: &[u8], from: usize, to: usize) -> (r: Vec<u8>)
    requires
        from <= to <= s@.len(),
    ensures
        r@ == s@.subrange(from as int, to as int),
{
    let mut out: Vec<u8> = Vec::new();
    let mut i: usize = from;
    while i < to
        invariant
            from <= i <= to <= s@.len(),
            out@ == s@.subrange(from as int, i as int),
        decreases to - i,
    {
        out.push(s[i]);
        i += 1;
        assert(out@ =~= s@.subrange(from as int, i as int));
    }
    out
}

/// Parses a decimal number into thousandths.
pub fn parse_milli(tok: &[u8]) -> (r: Option<i64>)
    ensures
        r == parsed_milli(tok@),
{
    let mut d: usize = 0;
    while d < tok.len() && tok[d] != 46
        invariant
            d <= tok@.len(),
            forall|j: int| 0 <= j < d ==> tok@[j] != 46,
        decreases tok@.len() - d,
    {
        d += 1;
    }
    proof {
        lemma_first_dot(tok@, d as int);
        assert(tok@.subrange(0, tok@.len() as int) =~= tok@);
        if d < tok@.len() {
            lemma_first_dot_extend(tok@, d as int, tok@.len() as int);
            assert(first_dot(tok@) == Some(d as int));
        } else {
            assert(first_dot(tok@) is None);
        }
    }
    let has_dot = d < tok.len();
    let a = slice_to_vec(tok, 0, d);
    let f = if has_dot {
        slice_to_vec(tok, d + 1, tok.len())
    } else {
        Vec::new()
    };
    assert(!has_dot ==> a@ =~= tok@);
    let ip = if a.len() == 0 && has_dot && f.len() > 0 {
        Some(0u64)
    } else {
        parse_u64(a.as_slice())
    };
    assert(int_part(tok@) == a@);
    assert(frac_part(tok@) == f@);
    assert(whole_part(tok@) == ip);
    let v = match ip {
        Some(v) => v,
        None => return None,
    };
    let mut k: usize = 0;
    while k < f.len()
        invariant
            k <= f@.len(),
            frac_part(tok@) == f@,
            whole_part(tok@) == Some(v),
            forall|j: int| 0 <= j < k ==> is_digit(#[trigger] f@[j]),
        decreases f@.len() - k,
    {
        if f[k] < 48 || f[k] > 57 {
            assert(!is_digit(f@[k as int]));
            return None;
        }
        k += 1;
    }
    let fm: u64 = if f.len() == 0 {
        0
    } else if f.len() == 1 {
        (f[0] - 48) as u64 * 100
    } else if f.len() == 2 {
        (f[0] - 48) as u64 * 100 + (f[1] - 48) as u64 * 10
    } else {
        (f[0] - 48) as u64 * 100 + (f[1] - 48) as u64 * 10 + (f[2] - 48) as u64
    };
    let total = v as u128 * 1000 + fm as u128;
    if total > i64::MAX as u128 {
        None
    } else {
        Some(total as i64)
    }
}

/// A value in thousandths written with one decimal, truncated toward zero
/// (`-1.5` for -1500, `96.0` for 96000).
pub open spec fn tenths(v: int) -> Seq<char> {
    let a: nat = if v < 0 {
        (-v) as nat
    } else {
        v as nat
    };
    (if v < 0 && a / 100 > 0 {
        "-"@
    } else {
        Seq::empty()
    }) + decimal(a / 1000) + "."@ + seq![digit_char((a / 100) % 10)]
}

pub fn tenths_text(v: i64) -> (r: String)
    ensures
        r@ == tenths(v as int),
{
    let a: u64 = if v < 0 {
        if v == i64::MIN {
            9_223_372_036_854_775_808u64
        } else {
            (-v) as u64
        }
    } else {
        v as u64
    };
    let mut s = if v < 0 && a / 100 > 0 {
        String::from_str("-")
    } else {
        String::new()
    };
    let ghost head = s@;
    let whole = decimal_text(a / 1000);
    s.append(whole.as_str());
    s.append(".");
    s.append(digit_str((a / 100) % 10));
    proof {
        reveal_strlit("-");
        reveal_strlit(".");
        assert(head =~= (if v < 0 && a / 100 > 0 {
            "-"@
        } else {
            Seq::empty()
        }));
    }
    assert(s@ =~= tenths(v as int));
    s
}

} // verus!
