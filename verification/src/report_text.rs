//! The text pieces of a report: escaping, labels and small formatters.
use vstd::prelude::*;

use crate::float_bits::{f64_rounded, rounded_as_f64};
use crate::text::{
    chars_of, decimal_chars, decimal_digits, digit_char, divides_i64, push_char, push_chars,
    signed_decimal, signed_decimal_chars, str_equal, trunc_div, trunc_div_i64,
};
use vstd::arithmetic::power2::pow2;

verus! {

broadcast use vstd::string::group_string_axioms;

/// How one character appears in HTML text or attribute values.
pub open spec fn escaped_char(c: char) -> Seq<char> {
    if c == '&' {
        seq!['&', 'a', 'm', 'p', ';']
    } else if c == '<' {
        seq!['&', 'l', 't', ';']
    } else if c == '>' {
        seq!['&', 'g', 't', ';']
    } else if c == '"' {
        seq!['&', 'q', 'u', 'o', 't', ';']
    } else if c == '\'' {
        seq!['&', '#', '3', '9', ';']
    } else {
        seq![c]
    }
}

/// Text made safe for HTML: each character replaced by `escaped_char`.
pub open spec fn escaped(s: Seq<char>) -> Seq<char>
    decreases s.len(),
{
    if s.len() == 0 {
        Seq::empty()
    } else {
        escaped(s.drop_last()) + escaped_char(s.last())
    }
}

/// The characters that would start or end markup or an attribute value.
pub open spec fn is_markup_char(c: char) -> bool {
    c == '<' || c == '>' || c == '"' || c == '\''
}

fn push_escaped(out: &mut String, c: char)
    ensures
        final(out)@ == old(out)@ + escaped_char(c),
{
    let ghost before = out@;
    if c == '&' {
        push_char(out, '&');
        push_char(out, 'a');
        push_char(out, 'm');
        push_char(out, 'p');
        push_char(out, ';');
    } else if c == '<' {
        push_char(out, '&');
        push_char(out, 'l');
        push_char(out, 't');
        push_char(out, ';');
    } else if c == '>' {
        push_char(out, '&');
        push_char(out, 'g');
        push_char(out, 't');
        push_char(out, ';');
    } else if c == '"' {
        push_char(out, '&');
        push_char(out, 'q');
        push_char(out, 'u');
        push_char(out, 'o');
        push_char(out, 't');
        push_char(out, ';');
    } else if c == '\'' {
        push_char(out, '&');
        push_char(out, '#');
        push_char(out, '3');
        push_char(out, '9');
        push_char(out, ';');
    } else {
        push_char(out, c);
    }
    assert(out@ =~= before + escaped_char(c));
}

/// Appends `value` escaped for HTML.
pub fn push_escaped_str(out: &mut String, value: &str)
    ensures
        final(out)@ == old(out)@ + escaped(value@),
{
    let chars = chars_of(value);
    let mut i: usize = 0;
    while i < chars.len()
        invariant
            i <= chars.len(),
            chars@ == value@,
            out@ == old(out)@ + escaped(chars@.take(i as int)),
        decreases chars.len() - i,
    {
        let ghost before = out@;
        push_escaped(out, chars[i]);
        proof {
            let next = chars@.take(i + 1);
            assert(next.drop_last() =~= chars@.take(i as int));
            assert(next.last() == chars@[i as int]);
            assert(out@ =~= old(out)@ + escaped(next));
        }
        i = i + 1;
    }
    assert(chars@.take(chars.len() as int) =~= value@);
}

/// `value` escaped for HTML: `&`, `<`, `>`, `"` and `'` become entities.
pub fn escape_html(value: &str) -> (r: String)
    ensures
        r@ == escaped(value@),
{
    let mut out = String::new();
    push_escaped_str(&mut out, value);
    assert(Seq::<char>::empty() + escaped(value@) =~= escaped(value@));
    out
}

/// Escaped text holds no character that could open or close markup or an
/// attribute value: untrusted text cannot inject HTML.
pub proof fn lemma_escaped_text_has_no_markup(s: Seq<char>)
    ensures
        forall|i: int| 0 <= i < escaped(s).len() ==> !is_markup_char(#[trigger] escaped(s)[i]),
    decreases s.len(),
{
    if s.len() > 0 {
        lemma_escaped_text_has_no_markup(s.drop_last());
        let front = escaped(s.drop_last());
        let tail = escaped_char(s.last());
        assert forall|i: int| 0 <= i < escaped(s).len() implies !is_markup_char(
            #[trigger] escaped(s)[i],
        ) by {
            if i < front.len() {
                assert(escaped(s)[i] == front[i]);
            } else {
                assert(escaped(s)[i] == tail[i - front.len()]);
            }
        }
    }
}

/// Text without special characters is left as it is.
pub proof fn lemma_plain_text_is_unchanged(s: Seq<char>)
    requires
        forall|i: int|
            0 <= i < s.len() ==> !is_markup_char(#[trigger] s[i]) && s[i] != '&',
    ensures
        escaped(s) == s,
    decreases s.len(),
{
    if s.len() > 0 {
        lemma_plain_text_is_unchanged(s.drop_last());
        assert(escaped(s) =~= s.drop_last().push(s.last()));
        assert(s.drop_last().push(s.last()) =~= s);
    }
}

/// The human-readable name of a metric; unknown names are shown as they are.
pub open spec fn metric_label_of(name: Seq<char>) -> Seq<char> {
    if name == "cpu.total.usage"@ {
        "CPU usage"@
    } else if name == "memory.usage"@ {
        "Memory usage"@
    } else if name == "disk.space.usage"@ {
        "Disk space usage"@
    } else if name == "disk.io.read.rate"@ {
        "Disk read rate"@
    } else if name == "disk.io.write.rate"@ {
        "Disk write rate"@
    } else if name == "network.receive.rate"@ {
        "Network receive rate"@
    } else if name == "network.transmit.rate"@ {
        "Network transmit rate"@
    } else if name == "gpu.device.usage"@ {
        "GPU usage"@
    } else if name == "gpu.renderer.usage"@ {
        "GPU renderer usage"@
    } else if name == "gpu.tiler.usage"@ {
        "GPU tiler usage"@
    } else if name == "gpu.memory.used"@ {
        "GPU memory in use"@
    } else if name == "gpu.memory.allocated"@ {
        "GPU allocated memory"@
    } else if name == "gpu.memory.total"@ {
        "GPU memory total"@
    } else if name == "gpu.device.identity"@ {
        "GPU identity"@
    } else if name == "gpu.power"@ {
        "GPU power"@
    } else if name == "gpu.temperature"@ {
        "GPU temperature"@
    } else {
        name
    }
}

/// The human-readable name of a metric (see `metric_label_of`).
pub fn metric_label(name: &str) -> (label: String)
    ensures
        label@ == metric_label_of(name@),
{
    if str_equal(name, "cpu.total.usage") {
        String::from_str("CPU usage")
    } else if str_equal(name, "memory.usage") {
        String::from_str("Memory usage")
    } else if str_equal(name, "disk.space.usage") {
        String::from_str("Disk space usage")
    } else if str_equal(name, "disk.io.read.rate") {
        String::from_str("Disk read rate")
    } else if str_equal(name, "disk.io.write.rate") {
        String::from_str("Disk write rate")
    } else if str_equal(name, "network.receive.rate") {
        String::from_str("Network receive rate")
    } else if str_equal(name, "network.transmit.rate") {
        String::from_str("Network transmit rate")
    } else if str_equal(name, "gpu.device.usage") {
        String::from_str("GPU usage")
    } else if str_equal(name, "gpu.renderer.usage") {
        String::from_str("GPU renderer usage")
    } else if str_equal(name, "gpu.tiler.usage") {
        String::from_str("GPU tiler usage")
    } else if str_equal(name, "gpu.memory.used") {
        String::from_str("GPU memory in use")
    } else if str_equal(name, "gpu.memory.allocated") {
        String::from_str("GPU allocated memory")
    } else if str_equal(name, "gpu.memory.total") {
        String::from_str("GPU memory total")
    } else if str_equal(name, "gpu.device.identity") {
        String::from_str("GPU identity")
    } else if str_equal(name, "gpu.power") {
        String::from_str("GPU power")
    } else if str_equal(name, "gpu.temperature") {
        String::from_str("GPU temperature")
    } else {
        name.to_owned()
    }
}

/// One overview card of a report.
pub open spec fn summary_card_html(label: Seq<char>, value: Seq<char>) -> Seq<char> {
    "<article class=\"card\"><span>"@ + escaped(label) + "</span><strong>"@ + escaped(value)
        + "</strong></article>"@
}

/// Appends an overview card showing `label` and `value`, both escaped.
pub fn summary_card(html: &mut String, label: &str, value: &str)
    ensures
        final(html)@ == old(html)@ + summary_card_html(label@, value@),
{
    html.append("<article class=\"card\"><span>");
    push_escaped_str(html, label);
    html.append("</span><strong>");
    push_escaped_str(html, value);
    html.append("</strong></article>");
    assert(html@ =~= old(html)@ + summary_card_html(label@, value@));
}

/// A chart bucket span as reports print it: whole minutes as `N min`,
/// anything else as whole seconds, `N sec` (both rounded toward zero).
pub open spec fn duration_text(milliseconds: int) -> Seq<char> {
    if milliseconds % 60_000 == 0 {
        signed_decimal(trunc_div(milliseconds, 60_000)) + " min"@
    } else {
        signed_decimal(trunc_div(milliseconds, 1_000)) + " sec"@
    }
}

/// A chart bucket span as reports print it (see `duration_text`).
pub fn format_duration_ms(milliseconds: i64) -> (text: String)
    ensures
        text@ == duration_text(milliseconds as int),
{
    let (count, suffix) = if divides_i64(milliseconds, 60_000) {
        (trunc_div_i64(milliseconds, 60_000), " min")
    } else {
        (trunc_div_i64(milliseconds, 1_000), " sec")
    };
    let mut text = String::new();
    push_chars(&mut text, &signed_decimal_chars(count));
    text.append(suffix);
    assert(text@ =~= duration_text(milliseconds as int));
    text
}


/// `n / d` rounded to the nearest integer, ties to even, as `{:.2}`
/// formatting rounds an exact binary value.
pub open spec fn half_even_quotient(n: nat, d: nat) -> nat {
    let q = n / d;
    let r = n % d;
    if 2 * r > d || (2 * r == d && q % 2 == 1) {
        q + 1
    } else {
        q
    }
}

/// A count of hundredths printed with two decimals.
pub open spec fn hundredths_text(hundredths: nat) -> Seq<char> {
    decimal_digits(hundredths / 100) + seq![
        '.',
        digit_char((hundredths % 100) / 10),
        digit_char(hundredths % 10),
    ]
}

/// A byte count as reports print it: the count as a binary64 number, in
/// GiB, MiB or KiB with two decimals from 1 KiB on, else in whole bytes.
pub open spec fn bytes_text(bytes: nat) -> Seq<char> {
    let b = f64_rounded(bytes);
    if b >= pow2(30) {
        hundredths_text(half_even_quotient(b * 100, pow2(30))) + " GiB"@
    } else if b >= pow2(20) {
        hundredths_text(half_even_quotient(b * 100, pow2(20))) + " MiB"@
    } else if b >= pow2(10) {
        hundredths_text(half_even_quotient(b * 100, pow2(10))) + " KiB"@
    } else {
        decimal_digits(b) + " B"@
    }
}

fn digit(d: u128) -> (c: char)
    requires
        d < 10,
    ensures
        c == digit_char(d as nat),
{
    let v = decimal_chars(d as u64);
    assert(v@ == seq![digit_char(d as nat)]);
    v[0]
}

fn push_scaled(text: &mut String, b: u128, unit: u128, shift: Ghost<nat>)
    requires
        unit == pow2(shift@),
        0x400 <= unit <= 0x4000_0000,
        b <= 0x1_0000_0000_0000_0000,
    ensures
        final(text)@ == old(text)@ + hundredths_text(half_even_quotient((b * 100) as nat, unit as nat)),
{
    let n = b * 100;
    let q = n / unit;
    let r = n % unit;
    proof {
        vstd::arithmetic::div_mod::lemma_mod_pos_bound(n as int, unit as int);
    }
    let h = if 2 * r > unit || (2 * r == unit && q % 2 == 1) {
        q + 1
    } else {
        q
    };
    assert(q <= n) by (nonlinear_arith)
        requires
            q == n / unit,
            unit > 0,
    ;
    assert(q <= n / 0x400) by {
        vstd::arithmetic::div_mod::lemma_div_is_ordered_by_denominator(n as int, 0x400, unit as int);
    }
    assert(h / 100 < 0x1_0000_0000_0000_0000);
    let whole = (h / 100) as u64;
    push_chars(text, &decimal_chars(whole));
    push_char(text, '.');
    push_char(text, digit((h % 100) / 10));
    push_char(text, digit(h % 10));
}

/// A byte count as reports print it (see `bytes_text`).
pub fn format_bytes(bytes: u64) -> (text: String)
    ensures
        text@ == bytes_text(bytes as nat),
{
    let b = rounded_as_f64(bytes);
    proof {
        vstd::arithmetic::power2::lemma2_to64();
    }
    let mut text = String::new();
    assert(pow2(30) == 0x4000_0000 && pow2(20) == 0x10_0000 && pow2(10) == 0x400);
    if b >= 0x4000_0000 {
        push_scaled(&mut text, b, 0x4000_0000, Ghost(30));
        text.append(" GiB");
        assert(text@ =~= bytes_text(bytes as nat));
    } else if b >= 0x10_0000 {
        push_scaled(&mut text, b, 0x10_0000, Ghost(20));
        text.append(" MiB");
        assert(text@ =~= bytes_text(bytes as nat));
    } else if b >= 0x400 {
        push_scaled(&mut text, b, 0x400, Ghost(10));
        text.append(" KiB");
        assert(text@ =~= bytes_text(bytes as nat));
    } else {
        push_chars(&mut text, &decimal_chars(b as u64));
        text.append(" B");
        assert(text@ =~= bytes_text(bytes as nat));
    }
    text
}

} // verus!
