//! Synthesis of the stored readme from the raw readme text.
use vstd::prelude::*;
use vstd::string::StringExecFns;

verus! {

/// The ASCII digit for `d`.
pub open spec fn digit_char(d: nat) -> char {
    ((d + 48) as u8) as char
}

/// Decimal digits of `n`, without leading zeros.
pub open spec fn decimal(n: nat) -> Seq<char>
    decreases n,
{
    if n < 10 {
        seq![digit_char(n)]
    } else {
        decimal(n / 10).push(digit_char(n % 10))
    }
}

/// `n` written with exactly five digits, zero-padded on the left (`n` below 100000).
pub open spec fn padded5(n: nat) -> Seq<char> {
    seq![
        digit_char((n / 10000) % 10),
        digit_char((n / 1000) % 10),
        digit_char((n / 100) % 10),
        digit_char((n / 10) % 10),
        digit_char(n % 10),
    ]
}

/// `s` with every `\r\n` and every remaining bare `\r` turned into `\n`.
pub open spec fn normalize_newlines(s: Seq<char>) -> Seq<char>
    decreases s.len(),
{
    if s.len() == 0 {
        s
    } else if s[0] == '\r' && s.len() >= 2 && s[1] == '\n' {
        seq!['\n'] + normalize_newlines(s.subrange(2, s.len() as int))
    } else if s[0] == '\r' {
        seq!['\n'] + normalize_newlines(s.drop_first())
    } else {
        seq![s[0]] + normalize_newlines(s.drop_first())
    }
}

/// The stored readme: a title line with the zero-padded id, the raw text with its line
/// endings normalized, and a footer naming the command that scaffolds the puzzle.
pub open spec fn readme_text(title: Seq<char>, id: u16, raw: Seq<char>) -> Seq<char> {
    "# "@ + title + " - Puzzle ID "@ + padded5(id as nat) + "\n"@ + normalize_newlines(raw)
        + "\n\n### Command\n`rukata generate "@ + decimal(id as nat) + "`\n"@
}

/// Relies on `String::push`: the character is appended.
#[verifier::external_body]
fn push_char(s: &mut String, c: char)
    ensures
        final(s)@ == old(s)@.push(c),
{
    s.push(c);
}

fn push_digit(s: &mut String, d: u16)
    requires
        d < 10,
    ensures
        final(s)@ == old(s)@.push(digit_char(d as nat)),
{
    push_char(s, (d as u8 + 48u8) as char);
}

/// Appends the decimal digits of `n`.
fn push_decimal(s: &mut String, n: u16)
    ensures
        final(s)@ == old(s)@ + decimal(n as nat),
    decreases n,
{
    if n >= 10 {
        push_decimal(s, n / 10);
    }
    push_digit(s, n % 10);
    assert(decimal(n as nat) == if n < 10 { seq![digit_char(n as nat)] } else { decimal((n / 10) as nat).push(digit_char((n % 10) as nat)) });
}

/// Appends the five-digit, zero-padded form of `n`.
pub(crate) fn push_padded5(s: &mut String, n: u16)
    ensures
        final(s)@ == old(s)@ + padded5(n as nat),
{
    push_digit(s, (n / 10000) % 10);
    push_digit(s, (n / 1000) % 10);
    push_digit(s, (n / 100) % 10);
    push_digit(s, (n / 10) % 10);
    push_digit(s, n % 10);
    assert(s@ =~= old(s)@ + padded5(n as nat));
}

/// The characters of `s`, in order.
pub(crate) fn chars_of(s: &str) -> (r: Vec<char>)
    ensures
        r@ == s@,
{
    let mut out: Vec<char> = Vec::new();
    for c in it: s.chars()
        invariant
            out@ == it.seq().take(it.index() as int),
    {
        out.push(c);
    }
    out
}

/// Appends `raw` with its line endings normalized.
fn push_normalized(s: &mut String, raw: &str)
    ensures
        final(s)@ == old(s)@ + normalize_newlines(raw@),
{
    let chars = chars_of(raw);
    let n = chars.len();
    let ghost start = s@;
    let mut i: usize = 0;
    assert(chars@.subrange(0, n as int) =~= chars@);
    while i < n
        invariant
            n == chars@.len(),
            chars@ == raw@,
            i <= n,
            start + normalize_newlines(raw@) == s@ + normalize_newlines(chars@.subrange(i as int, n as int)),
        decreases n - i,
    {
        let ghost rest = chars@.subrange(i as int, n as int);
        let c = chars[i];
        if c == '\r' && i + 1 < n && chars[i + 1] == '\n' {
            assert(rest.subrange(2, rest.len() as int) =~= chars@.subrange(i + 2, n as int));
            push_char(s, '\n');
            i = i + 2;
        } else if c == '\r' {
            assert(rest.drop_first() =~= chars@.subrange(i + 1, n as int));
            push_char(s, '\n');
            i = i + 1;
        } else {
            assert(rest.drop_first() =~= chars@.subrange(i + 1, n as int));
            push_char(s, c);
            i = i + 1;
        }
    }
    assert(chars@.subrange(n as int, n as int) =~= Seq::<char>::empty());
}

/// Builds the stored readme text from the raw readme, the puzzle's title and its id.
pub fn synthesize_readme(raw: &str, title: &str, id: u16) -> (r: String)
    ensures
        r@ == readme_text(title@, id, raw@),
{
    let mut text = String::new();
    text.append("# ");
    text.append(title);
    text.append(" - Puzzle ID ");
    push_padded5(&mut text, id);
    text.append("\n");
    push_normalized(&mut text, raw);
    text.append("\n\n### Command\n`rukata generate ");
    push_decimal(&mut text, id);
    text.append("`\n");
    text
}

/// Synthesis depends on its inputs alone: the same raw text, title and id always give the
/// same text, hence the same bytes.
pub proof fn lemma_readme_deterministic(
    raw: Seq<char>,
    title: Seq<char>,
    id: u16,
    first: Seq<char>,
    second: Seq<char>,
)
    requires
        first == readme_text(title, id, raw),
        second == readme_text(title, id, raw),
    ensures
        first == second,
        vstd::utf8::encode_utf8(first) == vstd::utf8::encode_utf8(second),
{
}

} // verus!
