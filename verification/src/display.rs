//! How prices and the panel label are laid out as text.
//!
//! Rendering a price to a fixed number of decimals is floating-point work that the
//! caller does; everything that happens to the rendered digits afterwards (dropping
//! padding zeros, grouping thousands, the sign, the currency, the label's layout)
//! is decided here.

use vstd::prelude::*;
use vstd::string::*;
use crate::config::{Config, PanelStyle};
use crate::text::{first_index, lemma_first_index, push_char, str_eq, uppercase, uppercase_of, views, joined, join};
use vstd::utf8::encode_utf8;

verus! {

/// The currency symbol shown before prices quoted in `vs`: a symbol for the common
/// currencies, otherwise the uppercased code and a space.
pub open spec fn prefix_for(vs: Seq<char>) -> Seq<char> {
    if vs == "usd"@ {
        "$"@
    } else if vs == "eur"@ {
        "€"@
    } else if vs == "gbp"@ {
        "£"@
    } else if vs == "jpy"@ {
        "¥"@
    } else if vs == "idr"@ {
        "Rp"@
    } else {
        uppercase_of(vs).push(' ')
    }
}

/// Currency symbol for the display currency, falling back to the uppercased code.
pub fn currency_prefix(vs: &str) -> (r: String)
    ensures
        r@ == prefix_for(vs@),
{
    if str_eq(vs, "usd") {
        String::from_str("$")
    } else if str_eq(vs, "eur") {
        String::from_str("€")
    } else if str_eq(vs, "gbp") {
        String::from_str("£")
    } else if str_eq(vs, "jpy") {
        String::from_str("¥")
    } else if str_eq(vs, "idr") {
        String::from_str("Rp")
    } else {
        let mut r = uppercase(vs);
        push_char(&mut r, ' ');
        r
    }
}

/// The first `i` digits of `d`, with a comma before every digit that starts a group
/// of three counted from the right.
pub open spec fn grouped_prefix(d: Seq<char>, i: int) -> Seq<char>
    decreases i,
{
    if i <= 0 {
        seq![]
    } else {
        grouped_prefix(d, i - 1) + (if i - 1 > 0 && (d.len() - (i - 1)) % 3 == 0 {
            seq![',', d[i - 1]]
        } else {
            seq![d[i - 1]]
        })
    }
}

/// `d` with its thousands grouped: `1360446498` becomes `1,360,446,498`.
pub open spec fn grouped(d: Seq<char>) -> Seq<char> {
    grouped_prefix(d, d.len() as int)
}

/// Grouping the first `i` digits only looks at those digits and at how many digits
/// follow them, so it agrees with grouping a prefix of the same length offset.
proof fn lemma_grouped_prefix_of_prefix(d: Seq<char>, i: int)
    requires
        d.len() > 3,
        0 <= i <= d.len() - 3,
    ensures
        grouped_prefix(d, i) == grouped_prefix(d.take(d.len() - 3), i),
    decreases i,
{
    if i > 0 {
        lemma_grouped_prefix_of_prefix(d, i - 1);
        let e = d.take(d.len() - 3);
        assert(e[i - 1] == d[i - 1]);
        assert((e.len() - (i - 1)) % 3 == (d.len() - (i - 1)) % 3);
    }
}

/// Up to three digits have no separator.
proof fn lemma_grouped_prefix_short(d: Seq<char>, i: int)
    requires
        d.len() <= 3,
        0 <= i <= d.len(),
    ensures
        grouped_prefix(d, i) == d.take(i),
    decreases i,
{
    if i == 0 {
        assert(d.take(0) =~= Seq::<char>::empty());
    } else {
        lemma_grouped_prefix_short(d, i - 1);
        assert(d.take(i) =~= d.take(i - 1) + seq![d[i - 1]]);
    }
}

/// What grouping thousands does, read from the right: three or fewer digits stand
/// as they are; otherwise the last three digits form a group, set off by a comma from
/// the grouped digits before them. So a comma never leads, and one stands before
/// every group of three counted from the right.
pub proof fn lemma_grouping_from_the_right(d: Seq<char>)
    ensures
        d.len() <= 3 ==> grouped(d) == d,
        d.len() > 3 ==> grouped(d) == grouped(d.take(d.len() - 3)) + seq![','] + d.skip(
            d.len() - 3,
        ),
        d.len() > 0 ==> grouped(d).len() > 0 && grouped(d)[0] == d[0],
    decreases d.len(),
{
    let n = d.len() as int;
    if n <= 3 {
        lemma_grouped_prefix_short(d, n);
        assert(d.take(n) =~= d);
    } else {
        let e = d.take(n - 3);
        lemma_grouped_prefix_of_prefix(d, n - 3);
        assert(grouped_prefix(d, n - 3) == grouped(e));
        assert(grouped_prefix(d, n - 2) == grouped(e) + seq![',', d[n - 3]]);
        assert(grouped_prefix(d, n - 1) == grouped(e) + seq![',', d[n - 3]] + seq![d[n - 2]]);
        assert(grouped_prefix(d, n) == grouped(e) + seq![',', d[n - 3]] + seq![d[n - 2]] + seq![
            d[n - 1],
        ]);
        assert(grouped(d) =~= grouped(e) + seq![','] + d.skip(n - 3));
        lemma_grouping_from_the_right(e);
        assert(e[0] == d[0]);
    }
}

/// `s` with its commas taken out.
pub open spec fn without_commas(s: Seq<char>) -> Seq<char>
    decreases s.len(),
{
    if s.len() == 0 {
        seq![]
    } else if s.last() == ',' {
        without_commas(s.drop_last())
    } else {
        without_commas(s.drop_last()).push(s.last())
    }
}

/// Taking the commas out of two joined pieces takes them out of each piece.
pub proof fn lemma_without_commas_concat(a: Seq<char>, b: Seq<char>)
    ensures
        without_commas(a + b) == without_commas(a) + without_commas(b),
    decreases b.len(),
{
    if b.len() == 0 {
        assert(a + b =~= a);
        assert(without_commas(a) + without_commas(b) =~= without_commas(a));
    } else {
        lemma_without_commas_concat(a, b.drop_last());
        assert((a + b).drop_last() =~= a + b.drop_last());
        assert((a + b).last() == b.last());
        if b.last() == ',' {
        } else {
            assert(without_commas(a) + without_commas(b) =~= (without_commas(a) + without_commas(
                b.drop_last(),
            )).push(b.last()));
        }
    }
}

/// Taking the commas out of the first `i` grouped digits gives the first `i` digits.
proof fn lemma_grouped_prefix_keeps_digits(d: Seq<char>, i: int)
    requires
        0 <= i <= d.len(),
        !d.contains(','),
    ensures
        without_commas(grouped_prefix(d, i)) == d.take(i),
    decreases i,
{
    if i == 0 {
        assert(without_commas(grouped_prefix(d, 0)) =~= d.take(0));
    } else {
        let k = i - 1;
        lemma_grouped_prefix_keeps_digits(d, k);
        let piece: Seq<char> = if k > 0 && (d.len() - k) % 3 == 0 {
            seq![',', d[k]]
        } else {
            seq![d[k]]
        };
        assert(grouped_prefix(d, i) == grouped_prefix(d, k) + piece);
        lemma_without_commas_concat(grouped_prefix(d, k), piece);
        assert(d[k] != ',') by {
            if d[k] == ',' {
                assert(d.contains(','));
            }
        }
        reveal_with_fuel(without_commas, 3);
        if k > 0 && (d.len() - k) % 3 == 0 {
            assert(piece.drop_last() =~= seq![',']);
            assert(seq![','].drop_last() =~= Seq::<char>::empty());
            assert(without_commas(piece) =~= seq![d[k]]);
        } else {
            assert(piece.drop_last() =~= Seq::<char>::empty());
            assert(without_commas(piece) =~= seq![d[k]]);
        }
        assert(d.take(i) =~= d.take(k) + seq![d[k]]);
    }
}

/// Grouping only inserts separators: taking the commas back out of grouped digits
/// gives the digits again.
pub proof fn lemma_grouping_keeps_digits(d: Seq<char>)
    requires
        !d.contains(','),
    ensures
        without_commas(grouped(d)) == d,
{
    lemma_grouped_prefix_keeps_digits(d, d.len() as int);
    assert(d.take(d.len() as int) =~= d);
}

/// `f` without its trailing zeros.
pub open spec fn without_trailing_zeros(f: Seq<char>) -> Seq<char>
    decreases f.len(),
{
    if f.len() > 0 && f.last() == '0' {
        without_trailing_zeros(f.drop_last())
    } else {
        f
    }
}

/// The fraction shown after the integer part, given the digits after the point.
/// From four decimals on, padding zeros are dropped (and the point with them when
/// nothing is left); with fewer decimals the zeros stay so that ordinary prices line
/// up with each other.
pub open spec fn fraction_text(f: Seq<char>, decimals: usize) -> Seq<char> {
    if decimals >= 4 {
        let t = without_trailing_zeros(f);
        if t.len() == 0 {
            seq![]
        } else {
            seq!['.'] + t
        }
    } else {
        seq!['.'] + f
    }
}

/// The popup's price text for a magnitude already rendered to `decimals` decimals:
/// the sign, the grouped integer part, then the fraction.
pub open spec fn amount_text(rendered: Seq<char>, decimals: usize, negative: bool) -> Seq<char> {
    let sign: Seq<char> = if negative {
        seq!['-']
    } else {
        seq![]
    };
    match first_index(rendered, '.') {
        Some(k) => sign + grouped(rendered.take(k)) + fraction_text(rendered.skip(k + 1), decimals),
        None => sign + grouped(rendered),
    }
}

/// Appends the first `n` characters of `d` to `out`, with their thousands grouped.
fn push_grouped(out: &mut String, d: &str, n: usize)
    requires
        n <= d@.len(),
    ensures
        final(out)@ == old(out)@ + grouped(d@.take(n as int)),
{
    let ghost digits = d@.take(n as int);
    let ghost start = old(out)@;
    let mut k: usize = 0;
    while k < n
        invariant
            n <= d@.len(),
            k <= n,
            digits == d@.take(n as int),
            out@ == start + grouped_prefix(digits, k as int),
        decreases n - k,
    {
        let c = d.get_char(k);
        if k > 0 && (n - k) % 3 == 0 {
            push_char(out, ',');
            push_char(out, c);
        } else {
            push_char(out, c);
        }
        proof {
            assert(digits[k as int] == c);
            if k > 0 && (n - k) % 3 == 0 {
                assert(grouped_prefix(digits, k + 1) =~= grouped_prefix(digits, k as int) + seq![',', c]);
            } else {
                assert(grouped_prefix(digits, k + 1) =~= grouped_prefix(digits, k as int) + seq![c]);
            }
        }
        k += 1;
    }
}

/// Full precision with grouped thousands, for the popup.
///
/// `rendered` is the magnitude of the price written with `decimals` decimals
/// (`77081`, `675.90`, `0.00000500`), and `negative` whether the price is below zero.
/// The result groups the thousands and, from four decimals on, drops the padding
/// zeros: `77,081`, `675.90`, `0.000005`.
pub fn format_rendered_amount(rendered: &str, decimals: usize, negative: bool) -> (r: String)
    ensures
        r@ == amount_text(rendered@, decimals, negative),
{
    let n = rendered.unicode_len();
    let mut k: usize = 0;
    while k < n && rendered.get_char(k) != '.'
        invariant
            n == rendered@.len(),
            k <= n,
            forall|j: int| 0 <= j < k ==> #[trigger] rendered@[j] != '.',
        decreases n - k,
    {
        k += 1;
    }
    proof {
        lemma_first_index(rendered@, '.', k as int);
    }
    let mut out = String::new();
    if negative {
        push_char(&mut out, '-');
    }
    push_grouped(&mut out, rendered, k);
    if k == n {
        assert(rendered@.take(n as int) =~= rendered@);
        return out;
    }
    let ghost f = rendered@.skip(k + 1);
    if decimals >= 4 {
        let mut e: usize = n;
        while e > k + 1 && rendered.get_char(e - 1) == '0'
            invariant
                n == rendered@.len(),
                k < n,
                k + 1 <= e <= n,
                f == rendered@.skip(k + 1),
                without_trailing_zeros(f) == without_trailing_zeros(rendered@.subrange(k + 1, e as int)),
            decreases e,
        {
            assert(rendered@.subrange(k + 1, e as int).drop_last() =~= rendered@.subrange(k + 1, e - 1));
            e -= 1;
        }
        proof {
            assert(f =~= rendered@.subrange(k + 1, n as int));
            let t = rendered@.subrange(k + 1, e as int);
            if e == k + 1 {
                assert(t.len() == 0);
            }
            assert(without_trailing_zeros(f) == t);
        }
        if e > k + 1 {
            push_char(&mut out, '.');
            out.append(rendered.substring_char(k + 1, e));
        }
    } else {
        push_char(&mut out, '.');
        out.append(rendered.substring_char(k + 1, n));
        assert(f =~= rendered@.subrange(k + 1, n as int));
    }
    out
}


/// How the panel button is built.
#[derive(Debug, Clone, Copy, PartialEq, Eq, Structural)]
pub enum PanelLayout {
    /// The icon alone; prices live in the popup.
    IconButton,
    /// The label alone.
    TextButton,
    /// The icon followed by the label.
    IconAndText,
}

/// Chooses how the panel button is built.
///
/// On a vertical panel the applet's width is the panel's thickness, so a text label
/// would force the whole bar wider: there the default icon style shows the icon
/// alone. An explicitly chosen text style is still honoured. Without a label there
/// is only the icon.
pub fn panel_layout(horizontal: bool, style: PanelStyle, has_label: bool) -> (l: PanelLayout)
    ensures
        l == (if (!horizontal && style == PanelStyle::Icon) || !has_label {
            PanelLayout::IconButton
        } else if style != PanelStyle::Icon {
            PanelLayout::TextButton
        } else {
            PanelLayout::IconAndText
        }),
{
    let icon_only = !horizontal && style == PanelStyle::Icon;
    if icon_only || !has_label {
        PanelLayout::IconButton
    } else if style != PanelStyle::Icon {
        PanelLayout::TextButton
    } else {
        PanelLayout::IconAndText
    }
}

/// Which of the quotes on screen the panel label is about: the first whose id is the
/// panel coin, if any.
pub fn panel_quote(config: &Config, quote_ids: &[String]) -> (r: Option<usize>)
    ensures
        match r {
            Some(k) => first_index(views(quote_ids@), config.panel_coin_id()) == Some(k as int),
            None => first_index(views(quote_ids@), config.panel_coin_id()) is None,
        },
{
    let coin = config.effective_panel_coin();
    let coin = match coin {
        Some(c) => c,
        None => {
            return None;
        },
    };
    let ghost ids = views(quote_ids@);
    let mut k: usize = 0;
    while k < quote_ids.len() && !quote_ids[k].eq(&coin)
        invariant
            k <= quote_ids@.len(),
            ids == views(quote_ids@),
            forall|j: int| 0 <= j < k ==> #[trigger] ids[j] != coin@,
        decreases quote_ids.len() - k,
    {
        k += 1;
    }
    proof {
        if k < quote_ids.len() {
            assert(ids[k as int] == quote_ids@[k as int]@);
        }
        lemma_first_index(ids, coin@, k as int);
    }
    if k < quote_ids.len() {
        Some(k)
    } else {
        None
    }
}

/// The rendered pieces of one quote that the panel label is made of.
#[derive(Debug, Clone)]
pub struct LabelParts {
    /// The ticker, such as `BTC`.
    pub symbol: String,
    /// The price with grouped thousands, as the popup shows it.
    pub full_price: String,
    /// The abbreviated price, such as `77.1k`.
    pub compact_price: String,
    /// Arrow and two-decimal change, if the quote has a 24h change.
    pub long_change: Option<String>,
    /// Arrow and one-decimal change, if the quote has a 24h change.
    pub short_change: Option<String>,
}

/// ` ` and the change, or nothing when there is no change.
pub open spec fn change_suffix(change: Option<String>) -> Seq<char> {
    match change {
        Some(c) => seq![' '] + c@,
        None => seq![],
    }
}

/// The panel label for a style, before any stale mark.
pub open spec fn label_for(style: PanelStyle, prefix: Seq<char>, parts: LabelParts) -> Seq<char> {
    match style {
        PanelStyle::Full => parts.symbol@ + seq![' '] + prefix + parts.full_price@ + change_suffix(
            parts.long_change,
        ),
        PanelStyle::Minimal => prefix + parts.compact_price@,
        _ => prefix + parts.compact_price@ + change_suffix(parts.short_change),
    }
}

/// Appends ` ` and the change, if there is one.
fn push_change(out: &mut String, change: &Option<String>)
    ensures
        final(out)@ == old(out)@ + change_suffix(*change),
{
    match change {
        Some(c) => {
            push_char(out, ' ');
            out.append(c.as_str());
        },
        None => {},
    }
}

/// Builds the panel label from the rendered quote, honouring the configured style,
/// and marks it with `stale_word` when the quotes are stale.
pub fn compose_panel_label(
    style: PanelStyle,
    prefix: &str,
    parts: &LabelParts,
    stale: bool,
    stale_word: &str,
) -> (r: String)
    ensures
        r@ == (if stale {
            label_for(style, prefix@, *parts) + seq![' '] + stale_word@
        } else {
            label_for(style, prefix@, *parts)
        }),
{
    let mut out = String::new();
    match style {
        PanelStyle::Full => {
            out.append(parts.symbol.as_str());
            push_char(&mut out, ' ');
            out.append(prefix);
            out.append(parts.full_price.as_str());
            push_change(&mut out, &parts.long_change);
        },
        PanelStyle::Minimal => {
            out.append(prefix);
            out.append(parts.compact_price.as_str());
        },
        _ => {
            out.append(prefix);
            out.append(parts.compact_price.as_str());
            push_change(&mut out, &parts.short_change);
        },
    }
    assert(out@ =~= label_for(style, prefix@, *parts));
    if stale {
        push_char(&mut out, ' ');
        out.append(stale_word);
        assert(out@ =~= label_for(style, prefix@, *parts) + seq![' '] + stale_word@);
    }
    out
}


/// The character of a decimal digit.
pub open spec fn digit_char(d: int) -> char {
    if d == 0 { '0' }
    else if d == 1 { '1' }
    else if d == 2 { '2' }
    else if d == 3 { '3' }
    else if d == 4 { '4' }
    else if d == 5 { '5' }
    else if d == 6 { '6' }
    else if d == 7 { '7' }
    else if d == 8 { '8' }
    else { '9' }
}

/// `n` written in decimal, without leading zeros.
pub open spec fn decimal(n: nat) -> Seq<char>
    decreases n,
{
    if n < 10 {
        seq![digit_char(n as int)]
    } else {
        decimal(n / 10).push(digit_char((n % 10) as int))
    }
}

/// The number that a string of decimal digits reads as, each character counting for
/// its distance from `'0'` in character codes.
pub open spec fn decimal_value(s: Seq<char>) -> int
    decreases s.len(),
{
    if s.len() == 0 {
        0
    } else {
        decimal_value(s.drop_last()) * 10 + (s.last() as int - '0' as int)
    }
}

/// The decimal text of a number is made of the characters `0` through `9`, starts
/// with a nonzero digit unless the number is zero, and reads back as the number.
pub proof fn lemma_decimal_reads_back(n: nat)
    ensures
        decimal_value(decimal(n)) == n,
        decimal(n).len() > 0,
        forall|k: int| 0 <= k < decimal(n).len() ==> '0' <= #[trigger] decimal(n)[k] <= '9',
        n > 0 ==> decimal(n)[0] != '0',
    decreases n,
{
    if n < 10 {
        assert(decimal(n) =~= seq![digit_char(n as int)]);
        assert(seq![digit_char(n as int)].drop_last() =~= Seq::<char>::empty());
        assert(digit_char(n as int) as int - '0' as int == n);
        assert(decimal_value(Seq::<char>::empty()) == 0);
        assert(decimal_value(seq![digit_char(n as int)]) == n);
    } else {
        lemma_decimal_reads_back(n / 10);
        let d = (n % 10) as int;
        let rest = decimal(n / 10);
        assert(decimal(n) == rest.push(digit_char(d)));
        assert(rest.push(digit_char(d)).drop_last() =~= rest);
        assert(digit_char(d) as int - '0' as int == d);
        assert(n == (n / 10) * 10 + d);
        assert forall|k: int| 0 <= k < decimal(n).len() implies '0' <= #[trigger] decimal(n)[k] <= '9' by {
            if k < rest.len() {
                assert(decimal(n)[k] == rest[k]);
            }
        }
        assert(decimal(n)[0] == rest[0]);
    }
}

/// Appends `n` in decimal.
fn push_decimal(out: &mut String, n: u32)
    ensures
        final(out)@ == old(out)@ + decimal(n as nat),
    decreases n,
{
    if n >= 10 {
        push_decimal(out, n / 10);
    }
    let d = n % 10;
    let c = if d == 0 { '0' }
        else if d == 1 { '1' }
        else if d == 2 { '2' }
        else if d == 3 { '3' }
        else if d == 4 { '4' }
        else if d == 5 { '5' }
        else if d == 6 { '6' }
        else if d == 7 { '7' }
        else if d == 8 { '8' }
        else { '9' };
    push_char(out, c);
    proof {
        if n >= 10 {
            assert(decimal(n as nat) == decimal((n / 10) as nat).push(c));
        } else {
            assert(decimal(n as nat) =~= seq![c]);
        }
    }
}

/// The SVG document drawing a polyline through `points` (each `x,y`) on a canvas
/// `width` by `height`, stroked in `colour`.
pub open spec fn sparkline_text(points: Seq<Seq<char>>, width: u32, height: u32, colour: Seq<char>) -> Seq<char> {
    "<svg xmlns=\"http://www.w3.org/2000/svg\" viewBox=\"0 0 "@ + decimal(width as nat) + " "@
        + decimal(height as nat) + "\" width=\""@ + decimal(width as nat) + "\" height=\""@
        + decimal(height as nat) + "\"><polyline points=\""@ + joined(points, " "@)
        + "\" fill=\"none\" stroke=\""@ + colour
        + "\" stroke-width=\"1.5\" stroke-linecap=\"round\" stroke-linejoin=\"round\"/></svg>"@
}

/// Writes a price series, already placed as `x,y` points inside a `width` by
/// `height` box with a 1.5 stroke inset, as a standalone SVG polyline. The colour is
/// passed in so it can come from the desktop theme. A line needs at least two
/// points; with fewer there is nothing to draw.
pub fn sparkline_document(points: &[String], width: u32, height: u32, colour: &str) -> (r: Option<Vec<u8>>)
    ensures
        match r {
            Some(bytes) => points@.len() >= 2 && bytes@ == encode_utf8(
                sparkline_text(views(points@), width, height, colour@),
            ),
            None => points@.len() < 2,
        },
{
    if points.len() < 2 {
        return None;
    }
    let mut out = String::from_str("<svg xmlns=\"http://www.w3.org/2000/svg\" viewBox=\"0 0 ");
    push_decimal(&mut out, width);
    out.append(" ");
    push_decimal(&mut out, height);
    out.append("\" width=\"");
    push_decimal(&mut out, width);
    out.append("\" height=\"");
    push_decimal(&mut out, height);
    out.append("\"><polyline points=\"");
    let line = join(points, " ");
    out.append(line.as_str());
    out.append("\" fill=\"none\" stroke=\"");
    out.append(colour);
    out.append("\" stroke-width=\"1.5\" stroke-linecap=\"round\" stroke-linejoin=\"round\"/></svg>");
    assert(out@ =~= sparkline_text(views(points@), width, height, colour@));
    Some(out.as_str().as_bytes_vec())
}

/// The change as the label shows it: the direction glyph, a space, then the
/// unsigned magnitude, such as `▲ 6.28%`.
pub fn change_text(arrow: &str, magnitude: &str) -> (r: String)
    ensures
        r@ == arrow@ + seq![' '] + magnitude@,
{
    let mut r = String::from_str(arrow);
    push_char(&mut r, ' ');
    r.append(magnitude);
    r
}

} // verus!
