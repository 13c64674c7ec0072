use vstd::prelude::*;

verus! {

/// Characters that may stand in a file name as they are.
pub open spec fn is_safe_char(c: char) -> bool {
    ('a' <= c && c <= 'z') || ('A' <= c && c <= 'Z') || ('0' <= c && c <= '9')
}

/// A port name with every character outside `[A-Za-z0-9]` replaced by `_`.
pub open spec fn sanitized(s: Seq<char>) -> Seq<char> {
    s.map_values(|c: char| if is_safe_char(c) { c } else { '_' })
}

/// True for the characters that a file name may not hold as they are.
pub fn is_unsafe_char(x: char) -> (r: bool)
    ensures
        r == !is_safe_char(x),
{
    if (x >= 'a' && x <= 'z') || (x >= 'A' && x <= 'Z') || (x >= '0' && x <= '9') {
        return false;
    }
    true
}

/// Replaces every unsafe character of `name` by an underscore.
pub fn sanitize_port_name(name: &str) -> (r: String)
    ensures
        r@ == sanitized(name@),
{
    let n = name.unicode_len();
    let mut out = String::new();
    let mut i: usize = 0;
    while i < n
        invariant
            n == name@.len(),
            i <= n,
            out@ == sanitized(name@.subrange(0, i as int)),
        decreases n - i,
    {
        let c = name.get_char(i);
        if is_unsafe_char(c) {
            out.append("_");
        } else {
            out.append(name.substring_char(i, i + 1));
        }
        proof {
            reveal_strlit("_");
            assert(name@.subrange(0, i + 1) =~= name@.subrange(0, i as int).push(c));
        }
        assert(out@ =~= sanitized(name@.subrange(0, i + 1)));
        i = i + 1;
    }
    assert(name@.subrange(0, n as int) =~= name@);
    out
}

/// Every character of a sanitized name is a letter, a digit or an underscore.
pub proof fn sanitized_chars_are_safe(s: Seq<char>)
    ensures
        sanitized(s).len() == s.len(),
        forall|i: int|
            0 <= i < sanitized(s).len() ==> is_safe_char(#[trigger] sanitized(s)[i])
                || sanitized(s)[i] == '_',
{
}


/// The character of a decimal digit.
pub open spec fn digit_char(d: nat) -> char {
    ((d + 48) as u8) as char
}


/// The decimal representation of `n`, without leading zeros.
pub open spec fn decimal(n: nat) -> Seq<char>
    decreases n,
{
    if n < 10 {
        seq![digit_char(n)]
    } else {
        decimal(n / 10).push(digit_char(n % 10))
    }
}

/// `decimal(n)` with zeros in front, up to `width` characters.
pub open spec fn zero_padded(n: nat, width: nat) -> Seq<char> {
    let d = decimal(n);
    if d.len() >= width {
        d
    } else {
        Seq::new((width - d.len()) as nat, |i: int| '0') + d
    }
}

/// A moment in UTC, as calendar fields.
#[derive(Clone, Copy, Debug, PartialEq, Eq, Structural)]
pub struct SessionTime {
    pub year: u32,
    pub month: u32,
    pub day: u32,
    pub hour: u32,
    pub minute: u32,
    pub second: u32,
}

/// `YYYY-MM-DD-HH-MM-SS`, each field zero-padded.
pub open spec fn timestamp_text(t: SessionTime) -> Seq<char> {
    zero_padded(t.year as nat, 4) + seq!['-'] + zero_padded(t.month as nat, 2) + seq!['-']
        + zero_padded(t.day as nat, 2) + seq!['-'] + zero_padded(t.hour as nat, 2) + seq!['-']
        + zero_padded(t.minute as nat, 2) + seq!['-'] + zero_padded(t.second as nat, 2)
}

/// `<timestamp>-<ordinal>-<sanitized source>.wav`
pub open spec fn file_name_text(timestamp: Seq<char>, ordinal: nat, source: Seq<char>) -> Seq<
    char,
> {
    timestamp + seq!['-'] + decimal(ordinal) + seq!['-'] + sanitized(source) + seq![
        '.',
        'w',
        'a',
        'v',
    ]
}

proof fn lemma_decimal_len(n: nat)
    ensures
        decimal(n).len() >= 1,
        n >= 10 ==> decimal(n).len() >= 2,
    decreases n,
{
    if n >= 10 {
        lemma_decimal_len(n / 10);
    }
}

proof fn lemma_decimal_digits(n: nat)
    ensures
        forall|k: int| 0 <= k < decimal(n).len() ==> #[trigger] decimal(n)[k] != '-',
    decreases n,
{
    let d = decimal(n);
    if n >= 10 {
        lemma_decimal_digits(n / 10);
        assert forall|k: int| 0 <= k < d.len() implies #[trigger] d[k] != '-' by {
            if k < d.len() - 1 {
                assert(d[k] == decimal(n / 10)[k]);
            }
        }
    } else {
        assert(d[0] == digit_char(n));
    }
}

proof fn lemma_decimal_injective(n: nat, m: nat)
    requires
        decimal(n) == decimal(m),
    ensures
        n == m,
    decreases n,
{
    lemma_decimal_len(n);
    lemma_decimal_len(m);
    if n < 10 && m < 10 {
        assert(decimal(n)[0] == digit_char(n));
        assert(decimal(m)[0] == digit_char(m));
    } else if n < 10 {
        assert(decimal(n).len() == 1);
    } else if m < 10 {
        assert(decimal(m).len() == 1);
    } else {
        let dn = decimal(n);
        assert(decimal(n / 10) == dn.drop_last());
        assert(decimal(m / 10) == decimal(m).drop_last());
        lemma_decimal_injective(n / 10, m / 10);
        assert(dn.last() == digit_char(n % 10));
        assert(decimal(m).last() == digit_char(m % 10));
    }
}

/// The characters of one decimal digit.
fn digit_text(d: u64) -> (r: &'static str)
    requires
        d < 10,
    ensures
        r@ == seq![digit_char(d as nat)],
{
    let digits = "0123456789";
    proof {
        reveal_strlit("0123456789");
    }
    let r = digits.substring_char(d as usize, d as usize + 1);
    assert(r@ =~= seq![digit_char(d as nat)]);
    r
}

/// Appends the decimal representation of `n`.
fn push_decimal(out: &mut String, n: u64)
    ensures
        final(out)@ == old(out)@ + decimal(n as nat),
    decreases n,
{
    if n >= 10 {
        push_decimal(out, n / 10);
    }
    out.append(digit_text(n % 10));
    assert(out@ =~= old(out)@ + decimal(n as nat));
}

/// Appends `n` in decimal, zero-padded to `width` characters.
fn push_padded(out: &mut String, n: u64, width: usize)
    ensures
        final(out)@ == old(out)@ + zero_padded(n as nat, width as nat),
{
    let mut digits = String::new();
    push_decimal(&mut digits, n);
    let len = digits.as_str().unicode_len();
    let ghost start = out@;
    if len < width {
        let mut k: usize = 0;
        while k < width - len
            invariant
                len < width,
                k <= width - len,
                out@ == start + Seq::new(k as nat, |i: int| '0'),
            decreases width - len - k,
        {
            out.append("0");
            proof {
                reveal_strlit("0");
            }
            assert(out@ =~= start + Seq::new((k + 1) as nat, |i: int| '0'));
            k = k + 1;
        }
    }
    out.append(digits.as_str());
    assert(out@ =~= start + zero_padded(n as nat, width as nat));
}

/// Renders `t` as `YYYY-MM-DD-HH-MM-SS`.
pub fn session_timestamp(t: &SessionTime) -> (r: String)
    ensures
        r@ == timestamp_text(*t),
{
    let mut out = String::new();
    proof {
        reveal_strlit("-");
    }
    push_padded(&mut out, t.year as u64, 4);
    out.append("-");
    push_padded(&mut out, t.month as u64, 2);
    out.append("-");
    push_padded(&mut out, t.day as u64, 2);
    out.append("-");
    push_padded(&mut out, t.hour as u64, 2);
    out.append("-");
    push_padded(&mut out, t.minute as u64, 2);
    out.append("-");
    push_padded(&mut out, t.second as u64, 2);
    assert(out@ =~= timestamp_text(*t));
    out
}

/// The name of the file that records the binding at `ordinal` from `source`.
pub fn session_file_name(timestamp: &str, ordinal: usize, source: &str) -> (r: String)
    ensures
        r@ == file_name_text(timestamp@, ordinal as nat, source@),
{
    proof {
        reveal_strlit("-");
        reveal_strlit(".wav");
    }
    let mut out = String::from_str(timestamp);
    out.append("-");
    push_decimal(&mut out, ordinal as u64);
    out.append("-");
    let clean = sanitize_port_name(source);
    out.append(clean.as_str());
    out.append(".wav");
    assert(out@ =~= file_name_text(timestamp@, ordinal as nat, source@));
    out
}

/// The file names of a session, one per source port in binding order.
pub fn session_file_names(timestamp: &str, sources: &Vec<String>) -> (r: Vec<String>)
    ensures
        r.len() == sources.len(),
        forall|i: int|
            0 <= i < r.len() ==> #[trigger] r[i]@ == file_name_text(
                timestamp@,
                i as nat,
                sources[i]@,
            ),
{
    let mut out: Vec<String> = Vec::new();
    let mut i: usize = 0;
    while i < sources.len()
        invariant
            i <= sources.len(),
            out.len() == i,
            forall|k: int|
                0 <= k < i ==> #[trigger] out[k]@ == file_name_text(
                    timestamp@,
                    k as nat,
                    sources[k]@,
                ),
        decreases sources.len() - i,
    {
        out.push(session_file_name(timestamp, i, sources[i].as_str()));
        i = i + 1;
    }
    out
}

/// Within one session, two bindings at different ordinals never share a file
/// name, whatever their source names are.
pub proof fn file_names_are_distinct(
    timestamp: Seq<char>,
    i: nat,
    source_i: Seq<char>,
    j: nat,
    source_j: Seq<char>,
)
    requires
        i != j,
    ensures
        file_name_text(timestamp, i, source_i) != file_name_text(timestamp, j, source_j),
{
    let a = file_name_text(timestamp, i, source_i);
    let b = file_name_text(timestamp, j, source_j);
    let p: int = timestamp.len() as int + 1;
    let di = decimal(i);
    let li: int = di.len() as int;
    let dj = decimal(j);
    let lj: int = dj.len() as int;
    lemma_decimal_digits(i);
    lemma_decimal_digits(j);
    if a == b {
        if di.len() < dj.len() {
            assert(a[p + li] == '-');
            assert(b[p + li] == dj[li]);
        } else if dj.len() < di.len() {
            assert(b[p + lj] == '-');
            assert(a[p + lj] == di[lj]);
        } else {
            assert(a.subrange(p, p + li) =~= di);
            assert(b.subrange(p, p + lj) =~= dj);
            lemma_decimal_injective(i, j);
        }
    }
}

} // verus!
