//! Textual encodings of a byte sequence.
use vstd::prelude::*;
use vstd::string::*;

verus! {

/// Declares `std::fmt::Error`, the error of `std::fmt::Write`, so that results
/// can name it. Nothing is assumed of its values.
#[verifier::external_type_specification]
#[verifier::external_body]
pub struct ExFmtError(std::fmt::Error);

/// The five textual encodings a byte sequence can be rendered in.
#[derive(Debug, Clone, Copy, PartialEq, Eq, Structural)]
pub enum OutputFormat {
    /// `0A FF`: uppercase hex pairs separated by a space.
    SpacedHexdump,
    /// `0AFF`: uppercase hex pairs with nothing between them.
    Hexdump,
    /// `\x0a\xff`: C string escapes.
    Escaped,
    /// `{ 0x0a, 0xff }`: a C array initialiser.
    C,
    /// `b'\x0a\xff'`: a Python bytes literal.
    Python,
}

/// How a single byte is spelled inside a rendering.
#[derive(Debug, Clone, Copy, PartialEq, Eq, Structural)]
pub enum ByteStyle {
    /// Two uppercase hex digits: `0A`.
    UpperPair,
    /// A backslash escape with lowercase digits: `\x0a`.
    Escape,
    /// A C hex literal with lowercase digits: `0x0a`.
    HexLiteral,
}

pub open spec fn upper_digits() -> Seq<char> {
    seq!['0', '1', '2', '3', '4', '5', '6', '7', '8', '9', 'A', 'B', 'C', 'D', 'E', 'F']
}

pub open spec fn lower_digits() -> Seq<char> {
    seq!['0', '1', '2', '3', '4', '5', '6', '7', '8', '9', 'a', 'b', 'c', 'd', 'e', 'f']
}

/// The hex digit for the value `n < 16`.
pub open spec fn hex_char(n: u8, upper: bool) -> char
    recommends
        n < 16,
{
    if upper {
        upper_digits()[n as int]
    } else {
        lower_digits()[n as int]
    }
}

/// Two hex digits for `b`, high nibble first.
pub open spec fn hex_pair(b: u8, upper: bool) -> Seq<char> {
    seq![hex_char(b / 16, upper), hex_char(b % 16, upper)]
}

/// The text of one byte in the given style.
pub open spec fn byte_text(style: ByteStyle, b: u8) -> Seq<char> {
    match style {
        ByteStyle::UpperPair => hex_pair(b, true),
        ByteStyle::Escape => seq!['\\', 'x'] + hex_pair(b, false),
        ByteStyle::HexLiteral => seq!['0', 'x'] + hex_pair(b, false),
    }
}

/// The texts of the bytes of `data`, with `join` between each two neighbours.
pub open spec fn joined(style: ByteStyle, data: Seq<u8>, join: Seq<char>) -> Seq<char>
    decreases data.len(),
{
    if data.len() == 0 {
        seq![]
    } else if data.len() == 1 {
        byte_text(style, data[0])
    } else {
        byte_text(style, data[0]) + join + joined(style, data.drop_first(), join)
    }
}

/// `start`, then the joined byte texts, then `end`.
pub open spec fn framed(
    data: Seq<u8>,
    start: Seq<char>,
    end: Seq<char>,
    join: Seq<char>,
    style: ByteStyle,
) -> Seq<char> {
    start + joined(style, data, join) + end
}

/// Appends the hex digit of `n` to `out`.
fn push_hex_digit(out: &mut String, n: u8, upper: bool)
    requires
        n < 16,
    ensures
        final(out)@ == old(out)@ + seq![hex_char(n, upper)],
{
    let digits: &str = if upper {
        "0123456789ABCDEF"
    } else {
        "0123456789abcdef"
    };
    proof {
        reveal_strlit("0123456789ABCDEF");
        reveal_strlit("0123456789abcdef");
        assert(digits@ =~= upper_digits() || digits@ =~= lower_digits());
    }
    let d = digits.substring_ascii(n as usize, n as usize + 1);
    assert(d@ =~= seq![hex_char(n, upper)]);
    out.append(d);
}

/// Appending one more byte extends the joined text by the join and that byte's text.
pub proof fn lemma_joined_push(style: ByteStyle, data: Seq<u8>, b: u8, join: Seq<char>)
    ensures
        joined(style, data.push(b), join) == if data.len() == 0 {
            byte_text(style, b)
        } else {
            joined(style, data, join) + join + byte_text(style, b)
        },
    decreases data.len(),
{
    if data.len() == 0 {
        assert(data.push(b) =~= seq![b]);
    } else if data.len() == 1 {
        assert(data.push(b).drop_first() =~= seq![b]);
        assert(joined(style, seq![b], join) == byte_text(style, b));
    } else {
        assert(data.push(b).drop_first() =~= data.drop_first().push(b));
        lemma_joined_push(style, data.drop_first(), b, join);
        assert(joined(style, data.push(b), join) =~= joined(style, data, join) + join + byte_text(
            style,
            b,
        ));
    }
}

/// Appends the text of byte `b` in the given style to `out`.
fn push_byte(out: &mut String, b: u8, style: ByteStyle)
    ensures
        final(out)@ == old(out)@ + byte_text(style, b),
{
    let ghost before = out@;
    let upper = match style {
        ByteStyle::UpperPair => true,
        ByteStyle::Escape => {
            out.append("\\x");
            false
        },
        ByteStyle::HexLiteral => {
            out.append("0x");
            false
        },
    };
    proof {
        reveal_strlit("\\x");
        reveal_strlit("0x");
    }
    push_hex_digit(out, b / 16, upper);
    push_hex_digit(out, b % 16, upper);
    assert(out@ =~= before + byte_text(style, b));
}

/// Renders `data` as `start`, the text of each byte in `style` with `join`
/// between neighbours, then `end`. Writing into a `String` cannot fail, so the
/// result is always `Ok`.
pub fn format_sequence(data: &[u8], start: &str, end: &str, join: &str, style: ByteStyle) -> (r:
    Result<String, std::fmt::Error>)
    ensures
        r is Ok,
        r->Ok_0@ == framed(data@, start@, end@, join@, style),
{
    let mut result = String::new();
    result.append(start);
    let mut i: usize = 0;
    while i < data.len()
        invariant
            i <= data.len(),
            result@ == start@ + joined(style, data@.take(i as int), join@),
        decreases data.len() - i,
    {
        if i > 0 {
            result.append(join);
        }
        push_byte(&mut result, data[i], style);
        proof {
            assert(data@.take(i + 1) =~= data@.take(i as int).push(data@[i as int]));
            lemma_joined_push(style, data@.take(i as int), data@[i as int], join@);
        }
        i += 1;
    }
    assert(data@.take(i as int) =~= data@);
    result.append(end);
    Ok(result)
}

impl OutputFormat {
    /// Text written before the first byte.
    pub open spec fn prefix(self) -> Seq<char> {
        match self {
            OutputFormat::C => seq!['{', ' '],
            OutputFormat::Python => seq!['b', '\''],
            _ => seq![],
        }
    }

    /// Text written after the last byte.
    pub open spec fn suffix(self) -> Seq<char> {
        match self {
            OutputFormat::C => seq![' ', '}'],
            OutputFormat::Python => seq!['\''],
            _ => seq![],
        }
    }

    /// Text written between two neighbouring bytes.
    pub open spec fn join(self) -> Seq<char> {
        match self {
            OutputFormat::SpacedHexdump => seq![' '],
            OutputFormat::C => seq![',', ' '],
            _ => seq![],
        }
    }

    /// How each byte is spelled.
    pub open spec fn style(self) -> ByteStyle {
        match self {
            OutputFormat::SpacedHexdump | OutputFormat::Hexdump => ByteStyle::UpperPair,
            OutputFormat::Escaped | OutputFormat::Python => ByteStyle::Escape,
            OutputFormat::C => ByteStyle::HexLiteral,
        }
    }

    /// The full rendering of `data` in this format.
    pub open spec fn render(self, data: Seq<u8>) -> Seq<char> {
        framed(data, self.prefix(), self.suffix(), self.join(), self.style())
    }

    /// Renders `what` in this format. Always `Ok`: the error case of the
    /// signature is that of writing text, which cannot fail for a `String`.
    pub fn format_sequence(&self, what: &[u8]) -> (r: Result<String, std::fmt::Error>)
        ensures
            r is Ok,
            r->Ok_0@ == self.render(what@),
    {
        proof {
            reveal_strlit("");
            reveal_strlit(" ");
            reveal_strlit("{ ");
            reveal_strlit(" }");
            reveal_strlit(", ");
            reveal_strlit("b'");
            reveal_strlit("'");
            assert(""@ =~= seq![]);
            assert(" "@ =~= seq![' ']);
            assert("{ "@ =~= seq!['{', ' ']);
            assert(" }"@ =~= seq![' ', '}']);
            assert(", "@ =~= seq![',', ' ']);
            assert("b'"@ =~= seq!['b', '\'']);
            assert("'"@ =~= seq!['\'']);
        }
        match self {
            OutputFormat::SpacedHexdump => format_sequence(what, "", "", " ", ByteStyle::UpperPair),
            OutputFormat::Hexdump => format_sequence(what, "", "", "", ByteStyle::UpperPair),
            OutputFormat::Escaped => format_sequence(what, "", "", "", ByteStyle::Escape),
            OutputFormat::C => format_sequence(what, "{ ", " }", ", ", ByteStyle::HexLiteral),
            OutputFormat::Python => format_sequence(what, "b'", "'", "", ByteStyle::Escape),
        }
    }
}

/// On empty input every format writes its prefix and suffix and nothing else.
pub proof fn lemma_empty_is_frame(f: OutputFormat)
    ensures
        f.render(seq![]) == f.prefix() + f.suffix(),
{
    assert(f.render(seq![]) =~= f.prefix() + f.suffix());
}

pub open spec fn is_not_space(c: char) -> bool {
    c != ' '
}

/// A hex digit is never a space.
proof fn lemma_hex_char_not_space(n: u8, upper: bool)
    requires
        n < 16,
    ensures
        hex_char(n, upper) != ' ',
        hex_char(n, upper) != ',',
{
    assert(upper_digits()[n as int] != ' ' && lower_digits()[n as int] != ' '
        && upper_digits()[n as int] != ',' && lower_digits()[n as int] != ',') by {
        assert(0 <= n < 16);
    }
}

/// Filtering out spaces leaves a text without spaces unchanged.
proof fn lemma_filter_spaces_noop(s: Seq<char>)
    requires
        forall|i: int| 0 <= i < s.len() ==> s[i] != ' ',
    ensures
        s.filter(|c: char| is_not_space(c)) == s,
    decreases s.len(),
{
    reveal(Seq::filter);
    if s.len() > 0 {
        lemma_filter_spaces_noop(s.drop_last());
        assert(s.drop_last().push(s.last()) =~= s);
    } else {
        assert(s.filter(|c: char| is_not_space(c)) =~= s);
    }
}

/// Without its spaces, the spaced hex text of `data` is the packed hex text.
proof fn lemma_joined_hex_without_spaces(data: Seq<u8>)
    ensures
        joined(ByteStyle::UpperPair, data, seq![' ']).filter(|c: char| is_not_space(c)) == joined(
            ByteStyle::UpperPair,
            data,
            seq![],
        ),
    decreases data.len(),
{
    let ns = |c: char| is_not_space(c);
    if data.len() == 0 {
        reveal(Seq::filter);
        assert(seq![].filter(ns) =~= Seq::<char>::empty());
    } else {
        let b = data[0];
        let t = byte_text(ByteStyle::UpperPair, b);
        lemma_hex_char_not_space(b / 16, true);
        lemma_hex_char_not_space(b % 16, true);
        lemma_filter_spaces_noop(t);
        if data.len() > 1 {
            let rest = joined(ByteStyle::UpperPair, data.drop_first(), seq![' ']);
            lemma_joined_hex_without_spaces(data.drop_first());
            Seq::filter_distributes_over_add(t + seq![' '], rest, ns);
            Seq::filter_distributes_over_add(t, seq![' '], ns);
            reveal(Seq::filter);
            assert(seq![' '].drop_last() =~= Seq::<char>::empty());
            assert(seq![' '].filter(ns) =~= Seq::<char>::empty());
            assert(t + seq![] =~= t);
        }
    }
}

/// Spaced and packed hex use the same two uppercase digits per byte: deleting
/// the spaces from the spaced form gives exactly the packed form.
pub proof fn lemma_spaced_hex_is_packed_with_spaces(data: Seq<u8>)
    ensures
        OutputFormat::SpacedHexdump.style() == OutputFormat::Hexdump.style(),
        OutputFormat::SpacedHexdump.render(data).filter(|c: char| is_not_space(c))
            == OutputFormat::Hexdump.render(data),
{
    lemma_joined_hex_without_spaces(data);
    let j = joined(ByteStyle::UpperPair, data, seq![' ']);
    assert(OutputFormat::SpacedHexdump.render(data) =~= j);
    assert(OutputFormat::Hexdump.render(data) =~= joined(ByteStyle::UpperPair, data, seq![]));
}

/// The number of positions of `s` at which `p` starts, overlapping ones included.
pub open spec fn occurrences(s: Seq<char>, p: Seq<char>) -> nat
    decreases s.len(),
{
    if s.len() == 0 || s.len() < p.len() {
        0
    } else {
        (if s.take(p.len() as int) == p {
            1nat
        } else {
            0nat
        }) + occurrences(s.drop_first(), p)
    }
}

/// Text that never holds the first character of `p` adds no occurrence of `p`.
proof fn lemma_occurrences_skip(a: Seq<char>, b: Seq<char>, p: Seq<char>)
    requires
        p.len() > 0,
        forall|i: int| 0 <= i < a.len() ==> a[i] != p[0],
    ensures
        occurrences(a + b, p) == occurrences(b, p),
    decreases a.len(),
{
    if a.len() == 0 {
        assert(a + b =~= b);
    } else {
        assert((a + b)[0] == a[0]);
        if (a + b).len() >= p.len() {
            assert((a + b).take(p.len() as int)[0] != p[0]);
        }
        assert((a + b).drop_first() =~= a.drop_first() + b);
        lemma_occurrences_skip(a.drop_first(), b, p);
    }
}

/// A pattern whose first character does not recur in it, placed in front of
/// `b`, adds exactly one occurrence.
proof fn lemma_occurrences_lead(p: Seq<char>, b: Seq<char>)
    requires
        p.len() > 0,
        forall|i: int| 1 <= i < p.len() ==> #[trigger] p[i] != p[0],
    ensures
        occurrences(p + b, p) == 1 + occurrences(b, p),
{
    assert((p + b).take(p.len() as int) =~= p);
    assert((p + b).drop_first() =~= p.drop_first() + b);
    lemma_occurrences_skip(p.drop_first(), b, p);
}

/// No byte text holds a space or a comma.
proof fn lemma_byte_text_plain(style: ByteStyle, b: u8)
    ensures
        forall|i: int|
            0 <= i < byte_text(style, b).len() ==> byte_text(style, b)[i] != ' '
                && byte_text(style, b)[i] != ',',
{
    lemma_hex_char_not_space(b / 16, style == ByteStyle::UpperPair);
    lemma_hex_char_not_space(b % 16, style == ByteStyle::UpperPair);
}

proof fn lemma_occurrences_joined(f: OutputFormat, data: Seq<u8>)
    requires
        data.len() > 0,
        f.join().len() > 0,
    ensures
        occurrences(joined(f.style(), data, f.join()) + f.suffix(), f.join()) == data.len() - 1,
    decreases data.len(),
{
    let j = f.join();
    let t = byte_text(f.style(), data[0]);
    lemma_byte_text_plain(f.style(), data[0]);
    lemma_occurrences_skip(f.suffix(), seq![], j);
    assert(f.suffix() + seq![] =~= f.suffix());
    if data.len() == 1 {
        lemma_occurrences_skip(t, f.suffix(), j);
    } else {
        let rest = joined(f.style(), data.drop_first(), j) + f.suffix();
        lemma_occurrences_joined(f, data.drop_first());
        assert(joined(f.style(), data, j) + f.suffix() =~= t + (j + rest));
        lemma_occurrences_skip(t, j + rest, j);
        lemma_occurrences_lead(j, rest);
    }
}

/// Every format writes its join text exactly once between each two neighbouring
/// bytes and nowhere else: `n` bytes give `n - 1` occurrences. Formats whose
/// join is empty are left out, as the empty text occurs at every position.
pub proof fn lemma_join_count(f: OutputFormat, data: Seq<u8>)
    requires
        data.len() > 0,
        f.join().len() > 0,
    ensures
        occurrences(f.render(data), f.join()) == data.len() - 1,
{
    lemma_occurrences_joined(f, data);
    let rest = joined(f.style(), data, f.join()) + f.suffix();
    assert(f.render(data) =~= f.prefix() + rest);
    lemma_occurrences_skip(f.prefix(), rest, f.join());
}

} // verus!
