//! ESC/POS byte sequences: the test ticket and the cash drawer pulse.

use vstd::prelude::*;
use vstd::utf8::encode_utf8;
use crate::text::{
    decimal, digit_char, push_char, push_decimal, push_str, push_zero_padded, zero_padded,
};

verus! {

/// The UTF-8 bytes of a text.
pub open spec fn text_bytes(s: Seq<char>) -> Seq<u8> {
    encode_utf8(s)
}

/// `ESC @`: initialise the printer.
pub open spec fn esc_init() -> Seq<u8> {
    seq![0x1Bu8, 0x40u8]
}

/// `ESC a n`: alignment, 0 left, 1 centre.
pub open spec fn esc_align(n: u8) -> Seq<u8> {
    seq![0x1Bu8, 0x61u8, n]
}

/// `ESC p m t1 t2`: pulse the cash drawer on pin `m` (0 for pin 2, 1 for pin 5).
pub open spec fn drawer_pulse(pin_byte: u8) -> Seq<u8> {
    seq![0x1Bu8, 0x70u8, pin_byte, 0x19u8, 0xFFu8]
}

/// `GS V 0`: full cut.
pub open spec fn full_cut() -> Seq<u8> {
    seq![0x1Du8, 0x56u8, 0x00u8]
}

/// The separator line: 32 dashes on 58 mm paper or narrower, 48 otherwise.
pub open spec fn separator_line(paper_width_mm: u8) -> Seq<char> {
    if paper_width_mm <= 58 {
        Seq::new(32, |i: int| '-')
    } else {
        Seq::new(48, |i: int| '-')
    }
}

/// The approximate date and time printed on the test ticket for a Unix time:
/// `YYYY-MM-DD hh:mm`, counting 365-day years from 2024 and 30-day months,
/// with the month kept to 1..=12 and the day to 1..=28.
pub open spec fn ticket_date(secs: u64) -> Seq<char> {
    let days = secs / 86400;
    let time_of_day = secs % 86400;
    let hours = time_of_day / 3600;
    let minutes = (time_of_day % 3600) / 60;
    let y = 2024 + days / 365;
    let remaining = days % 365;
    let m = remaining / 30 + 1;
    let d = remaining % 30 + 1;
    let m = if m > 12 {
        12
    } else {
        m
    };
    let d = if d > 28 {
        28
    } else {
        d
    };
    zero_padded(decimal(y as nat), 4) + "-"@ + zero_padded(decimal(m as nat), 2) + "-"@
        + zero_padded(decimal(d as nat), 2) + " "@ + zero_padded(decimal(hours as nat), 2) + ":"@
        + zero_padded(decimal(minutes as nat), 2)
}

/// Everything the test ticket prints before the optional drawer pulse.
pub open spec fn ticket_body(paper_width_mm: u8, secs: u64) -> Seq<u8> {
    let line = text_bytes(separator_line(paper_width_mm));
    esc_init() + esc_align(1) + text_bytes("\n"@) + text_bytes("==== CEGEL PRINT BRIDGE ====\n"@)
        + text_bytes("   Ticket de prueba\n"@) + text_bytes("\n"@) + esc_align(0) + line
        + text_bytes("\n"@) + text_bytes("Fecha : "@) + text_bytes(ticket_date(secs)) + text_bytes(
        "\n"@,
    ) + text_bytes("Papel : "@ + decimal(paper_width_mm as nat) + " mm\n"@) + text_bytes(
        "Estado: Conexion exitosa\n"@,
    ) + line + text_bytes("\n\n"@) + esc_align(1) + text_bytes("TODO FUNCIONA CORRECTAMENTE\n"@)
        + text_bytes("La impresora esta lista para\n"@) + text_bytes(
        "imprimir recibos y facturas.\n"@,
    ) + text_bytes("\n"@) + line + text_bytes("\n"@)
}

/// The final paper feed and cut of the test ticket.
pub open spec fn ticket_tail() -> Seq<u8> {
    text_bytes("\n\n\n\n"@) + full_cut()
}

/// The test ticket for a paper width, with or without a drawer pulse, printed
/// at Unix time `secs`.
pub open spec fn test_ticket(paper_width_mm: u8, open_drawer: bool, secs: u64) -> Seq<u8> {
    ticket_body(paper_width_mm, secs) + (if open_drawer {
        drawer_pulse(0)
    } else {
        Seq::empty()
    }) + ticket_tail()
}

/// Appends `b` to `buf`.
pub fn push_bytes(buf: &mut Vec<u8>, b: &[u8])
    ensures
        final(buf)@ == old(buf)@ + b@,
{
    let mut i: usize = 0;
    let ghost start = buf@;
    while i < b.len()
        invariant
            i <= b@.len(),
            buf@ == start + b@.take(i as int),
        decreases b@.len() - i,
    {
        buf.push(b[i]);
        proof {
            assert(b@.take(i + 1) =~= b@.take(i as int).push(b@[i as int]));
            assert(start + b@.take(i + 1) =~= (start + b@.take(i as int)).push(b@[i as int]));
        }
        i = i + 1;
    }
    proof {
        assert(b@.take(b@.len() as int) =~= b@);
    }
}

/// Appends the UTF-8 bytes of `s` to `buf`.
pub fn push_text(buf: &mut Vec<u8>, s: &str)
    ensures
        final(buf)@ == old(buf)@ + text_bytes(s@),
{
    push_bytes(buf, s.as_bytes());
}

/// The date text for Unix time `secs`.
pub fn format_ticket_date(secs: u64) -> (r: String)
    ensures
        r@ == ticket_date(secs),
{
    let days = secs / 86400;
    let time_of_day = secs % 86400;
    let hours = time_of_day / 3600;
    let minutes = (time_of_day % 3600) / 60;
    let y = 2024 + days / 365;
    let remaining = days % 365;
    let mut m = remaining / 30 + 1;
    let mut d = remaining % 30 + 1;
    if m > 12 {
        m = 12;
    }
    if d > 28 {
        d = 28;
    }
    let mut s = String::new();
    push_zero_padded(&mut s, y, 4);
    push_char(&mut s, '-');
    push_zero_padded(&mut s, m, 2);
    push_char(&mut s, '-');
    push_zero_padded(&mut s, d, 2);
    push_char(&mut s, ' ');
    push_zero_padded(&mut s, hours, 2);
    push_char(&mut s, ':');
    push_zero_padded(&mut s, minutes, 2);
    proof {
        reveal_strlit("-");
        reveal_strlit(" ");
        reveal_strlit(":");
        assert(s@ =~= ticket_date(secs));
    }
    s
}


fn separator(paper_width_mm: u8) -> (r: &'static str)
    ensures
        r@ == separator_line(paper_width_mm),
{
    if paper_width_mm <= 58 {
        let l = "--------------------------------";
        proof {
            reveal_strlit("--------------------------------");
            assert(l@ =~= separator_line(paper_width_mm));
        }
        l
    } else {
        let l = "------------------------------------------------";
        proof {
            reveal_strlit("------------------------------------------------");
            assert(l@ =~= separator_line(paper_width_mm));
        }
        l
    }
}

/// The test ticket printed at Unix time `secs`.
pub fn test_ticket_at(paper_width_mm: u8, open_drawer: bool, secs: u64) -> (r: Vec<u8>)
    ensures
        r@ == test_ticket(paper_width_mm, open_drawer, secs),
{
    let mut buf: Vec<u8> = Vec::new();
    let init: [u8; 2] = [0x1B, 0x40];
    push_bytes(&mut buf, &init);
    let center: [u8; 3] = [0x1B, 0x61, 0x01];
    let left: [u8; 3] = [0x1B, 0x61, 0x00];
    push_bytes(&mut buf, &center);
    push_text(&mut buf, "\n");
    push_text(&mut buf, "==== CEGEL PRINT BRIDGE ====\n");
    push_text(&mut buf, "   Ticket de prueba\n");
    push_text(&mut buf, "\n");
    push_bytes(&mut buf, &left);
    let line = separator(paper_width_mm);
    push_text(&mut buf, line);
    push_text(&mut buf, "\n");
    push_text(&mut buf, "Fecha : ");
    let date = format_ticket_date(secs);
    push_text(&mut buf, date.as_str());
    push_text(&mut buf, "\n");
    let mut paper = String::from_str("Papel : ");
    push_decimal(&mut paper, paper_width_mm as u64);
    push_str(&mut paper, " mm\n");
    push_text(&mut buf, paper.as_str());
    push_text(&mut buf, "Estado: Conexion exitosa\n");
    push_text(&mut buf, line);
    push_text(&mut buf, "\n\n");
    push_bytes(&mut buf, &center);
    push_text(&mut buf, "TODO FUNCIONA CORRECTAMENTE\n");
    push_text(&mut buf, "La impresora esta lista para\n");
    push_text(&mut buf, "imprimir recibos y facturas.\n");
    push_text(&mut buf, "\n");
    push_text(&mut buf, line);
    push_text(&mut buf, "\n");
    let ghost before_drawer = buf@;
    if open_drawer {
        let pulse: [u8; 5] = [0x1B, 0x70, 0x00, 0x19, 0xFF];
        push_bytes(&mut buf, &pulse);
        proof {
            assert(pulse@ =~= drawer_pulse(0));
        }
    }
    push_text(&mut buf, "\n\n\n\n");
    let cut: [u8; 3] = [0x1D, 0x56, 0x00];
    push_bytes(&mut buf, &cut);
    proof {
        assert(init@ =~= esc_init());
        assert(center@ =~= esc_align(1));
        assert(left@ =~= esc_align(0));
        assert(cut@ =~= full_cut());
        if !open_drawer {
            assert(before_drawer + Seq::<u8>::empty() =~= before_drawer);
        }
        assert(buf@ =~= test_ticket(paper_width_mm, open_drawer, secs));
    }
    buf
}

/// The current Unix time in whole seconds (`SystemTime::now` measured from
/// `UNIX_EPOCH`, zero if the clock is before it). The value depends on the
/// clock, so nothing is stated of it.
#[verifier::external_body]
fn unix_now_secs() -> u64 {
    std::time::SystemTime::now().duration_since(std::time::UNIX_EPOCH).unwrap_or_default().as_secs()
}

/// Builds the ESC/POS test ticket for 80 mm or 58 mm paper, dated now, with a
/// drawer pulse on pin 2 when `open_drawer` is set.
pub fn generate_test_ticket(paper_width_mm: u8, open_drawer: bool) -> (r: Vec<u8>)
    ensures
        exists|secs: u64| r@ == test_ticket(paper_width_mm, open_drawer, secs),
{
    let secs = unix_now_secs();
    test_ticket_at(paper_width_mm, open_drawer, secs)
}

/// The bytes that open the cash drawer on `drawer_pin` (5 selects the second
/// connector, any other pin the first).
pub fn drawer_kick_bytes(drawer_pin: u8) -> (r: Vec<u8>)
    ensures
        r@ == drawer_pulse(if drawer_pin == 5 { 1u8 } else { 0u8 }),
{
    let pin_byte: u8 = if drawer_pin == 5 { 0x01 } else { 0x00 };
    let r = vec![0x1Bu8, 0x70u8, pin_byte, 0x19u8, 0xFFu8];
    proof {
        assert(r@ =~= drawer_pulse(pin_byte));
    }
    r
}


// ---------------------------------------------------------------------------
// The drawer pulse is the only `ESC p` of a test ticket

/// Whether `s` is plain text: ASCII without the escape character.
pub open spec fn plain_text(s: Seq<char>) -> bool {
    &&& vstd::utf8::is_ascii_chars(s)
    &&& forall|i: int| 0 <= i < s.len() ==> #[trigger] s[i] != '\x1b'
}

/// Whether every `ESC` byte of `b` is followed, inside `b`, by a byte other
/// than `p`.
pub open spec fn escapes_not_p(b: Seq<u8>) -> bool {
    forall|i: int| 0 <= i < b.len() && #[trigger] b[i] == 0x1Bu8 ==> i + 1 < b.len() && b[i + 1] != 0x70u8
}

/// Whether `b` holds the `ESC p` command (`0x1B 0x70`).
pub open spec fn has_esc_p(b: Seq<u8>) -> bool {
    exists|i: int| 0 <= i && i + 1 < b.len() && #[trigger] b[i] == 0x1Bu8 && b[i + 1] == 0x70u8
}

/// `t` with the drawer pulse on pin 2 inserted before its last seven bytes.
pub open spec fn pulse_before_last_seven(t: Seq<u8>) -> Seq<u8> {
    t.take(t.len() - 7) + drawer_pulse(0) + t.skip(t.len() - 7)
}

proof fn lemma_escapes_concat(a: Seq<u8>, b: Seq<u8>)
    requires
        escapes_not_p(a),
        escapes_not_p(b),
    ensures
        escapes_not_p(a + b),
{
    let c = a + b;
    assert forall|i: int| 0 <= i < c.len() && #[trigger] c[i] == 0x1Bu8 implies i + 1 < c.len() && c[i
        + 1] != 0x70u8 by {
        if i < a.len() {
            assert(c[i] == a[i]);
            assert(c[i + 1] == a[i + 1]);
        } else {
            assert(c[i] == b[i - a.len()]);
            assert(c[i + 1] == b[i + 1 - a.len()]);
        }
    }
}

proof fn lemma_plain_concat(a: Seq<char>, b: Seq<char>)
    requires
        plain_text(a),
        plain_text(b),
    ensures
        plain_text(a + b),
{
    let c = a + b;
    assert forall|i: int| 0 <= i < c.len() implies '\0' <= #[trigger] c[i] <= '\u{7f}' && c[i] != '\x1b' by {
        if i < a.len() {
            assert(c[i] == a[i]);
        } else {
            assert(c[i] == b[i - a.len()]);
        }
    }
}

proof fn lemma_plain_bytes(s: Seq<char>)
    requires
        plain_text(s),
    ensures
        escapes_not_p(text_bytes(s)),
        text_bytes(s).len() == s.len(),
{
    vstd::utf8::is_ascii_chars_encode_utf8(s);
    let b = text_bytes(s);
    assert forall|i: int| 0 <= i < b.len() && #[trigger] b[i] == 0x1Bu8 implies i + 1 < b.len() && b[i
        + 1] != 0x70u8 by {
        let c = s[i];
        assert(c as u8 == b[i]);
        assert('\0' <= c <= '\u{7f}');
        assert(c != '\x1b');
        let u = c as u32;
        assert(u < 128);
        assert(u != 27);
        assert(u < 128 && u != 27 ==> (u as u8) != 27u8) by (bit_vector);
        assert(c as u8 == u as u8);
    }
}

proof fn lemma_decimal_plain(n: nat)
    ensures
        plain_text(decimal(n)),
    decreases n,
{
    if n >= 10 {
        lemma_decimal_plain(n / 10);
        let d = decimal(n / 10);
        lemma_plain_concat(d, seq![digit_char(n % 10)]);
        assert(d.push(digit_char(n % 10)) =~= d + seq![digit_char(n % 10)]);
    }
}

proof fn lemma_padded_plain(s: Seq<char>, width: nat)
    requires
        plain_text(s),
    ensures
        plain_text(zero_padded(s, width)),
{
    if s.len() < width {
        lemma_plain_concat(Seq::new((width - s.len()) as nat, |i: int| '0'), s);
    }
}

proof fn lemma_number_plain(n: nat, width: nat)
    ensures
        plain_text(zero_padded(decimal(n), width)),
{
    lemma_decimal_plain(n);
    lemma_padded_plain(decimal(n), width);
}

proof fn lemma_literals_plain()
    ensures
        plain_text("\n"@),
        plain_text("==== CEGEL PRINT BRIDGE ====\n"@),
        plain_text("   Ticket de prueba\n"@),
        plain_text("Fecha : "@),
        plain_text("Papel : "@),
        plain_text(" mm\n"@),
        plain_text("Estado: Conexion exitosa\n"@),
        plain_text("\n\n"@),
        plain_text("TODO FUNCIONA CORRECTAMENTE\n"@),
        plain_text("La impresora esta lista para\n"@),
        plain_text("imprimir recibos y facturas.\n"@),
        plain_text("\n\n\n\n"@),
        plain_text("-"@),
        plain_text(" "@),
        plain_text(":"@),
{
    assert(plain_text("\n"@)) by {
        reveal_strlit("\n");
        assert("\n"@ =~= seq!['\n']);
    }
    assert(plain_text("==== CEGEL PRINT BRIDGE ====\n"@)) by {
        reveal_strlit("==== CEGEL PRINT BRIDGE ====\n");
        assert("==== CEGEL PRINT BRIDGE ====\n"@ =~= seq!['=', '=', '=', '=', ' ', 'C', 'E', 'G', 'E', 'L', ' ', 'P', 'R', 'I', 'N', 'T', ' ', 'B', 'R', 'I', 'D', 'G', 'E', ' ', '=', '=', '=', '=', '\n']);
    }
    assert(plain_text("   Ticket de prueba\n"@)) by {
        reveal_strlit("   Ticket de prueba\n");
        assert("   Ticket de prueba\n"@ =~= seq![' ', ' ', ' ', 'T', 'i', 'c', 'k', 'e', 't', ' ', 'd', 'e', ' ', 'p', 'r', 'u', 'e', 'b', 'a', '\n']);
    }
    assert(plain_text("Fecha : "@)) by {
        reveal_strlit("Fecha : ");
        assert("Fecha : "@ =~= seq!['F', 'e', 'c', 'h', 'a', ' ', ':', ' ']);
    }
    assert(plain_text("Papel : "@)) by {
        reveal_strlit("Papel : ");
        assert("Papel : "@ =~= seq!['P', 'a', 'p', 'e', 'l', ' ', ':', ' ']);
    }
    assert(plain_text(" mm\n"@)) by {
        reveal_strlit(" mm\n");
        assert(" mm\n"@ =~= seq![' ', 'm', 'm', '\n']);
    }
    assert(plain_text("Estado: Conexion exitosa\n"@)) by {
        reveal_strlit("Estado: Conexion exitosa\n");
        assert("Estado: Conexion exitosa\n"@ =~= seq!['E', 's', 't', 'a', 'd', 'o', ':', ' ', 'C', 'o', 'n', 'e', 'x', 'i', 'o', 'n', ' ', 'e', 'x', 'i', 't', 'o', 's', 'a', '\n']);
    }
    assert(plain_text("\n\n"@)) by {
        reveal_strlit("\n\n");
        assert("\n\n"@ =~= seq!['\n', '\n']);
    }
    assert(plain_text("TODO FUNCIONA CORRECTAMENTE\n"@)) by {
        reveal_strlit("TODO FUNCIONA CORRECTAMENTE\n");
        assert("TODO FUNCIONA CORRECTAMENTE\n"@ =~= seq!['T', 'O', 'D', 'O', ' ', 'F', 'U', 'N', 'C', 'I', 'O', 'N', 'A', ' ', 'C', 'O', 'R', 'R', 'E', 'C', 'T', 'A', 'M', 'E', 'N', 'T', 'E', '\n']);
    }
    assert(plain_text("La impresora esta lista para\n"@)) by {
        reveal_strlit("La impresora esta lista para\n");
        assert("La impresora esta lista para\n"@ =~= seq!['L', 'a', ' ', 'i', 'm', 'p', 'r', 'e', 's', 'o', 'r', 'a', ' ', 'e', 's', 't', 'a', ' ', 'l', 'i', 's', 't', 'a', ' ', 'p', 'a', 'r', 'a', '\n']);
    }
    assert(plain_text("imprimir recibos y facturas.\n"@)) by {
        reveal_strlit("imprimir recibos y facturas.\n");
        assert("imprimir recibos y facturas.\n"@ =~= seq!['i', 'm', 'p', 'r', 'i', 'm', 'i', 'r', ' ', 'r', 'e', 'c', 'i', 'b', 'o', 's', ' ', 'y', ' ', 'f', 'a', 'c', 't', 'u', 'r', 'a', 's', '.', '\n']);
    }
    assert(plain_text("\n\n\n\n"@)) by {
        reveal_strlit("\n\n\n\n");
        assert("\n\n\n\n"@ =~= seq!['\n', '\n', '\n', '\n']);
    }
    assert(plain_text("-"@)) by {
        reveal_strlit("-");
        assert("-"@ =~= seq!['-']);
    }
    assert(plain_text(" "@)) by {
        reveal_strlit(" ");
        assert(" "@ =~= seq![' ']);
    }
    assert(plain_text(":"@)) by {
        reveal_strlit(":");
        assert(":"@ =~= seq![':']);
    }
}

proof fn lemma_date_plain(secs: u64)
    ensures
        plain_text(ticket_date(secs)),
{
    lemma_literals_plain();
    assert forall|n: nat, w: nat| #[trigger] plain_text(zero_padded(decimal(n), w)) by {
        lemma_number_plain(n, w);
    }
    assert forall|a: Seq<char>, b: Seq<char>| plain_text(a) && plain_text(b) implies #[trigger] plain_text(
        a + b,
    ) by {
        lemma_plain_concat(a, b);
    }
}

proof fn lemma_body_escapes(w: u8, secs: u64)
    ensures
        escapes_not_p(ticket_body(w, secs)),
{
    lemma_literals_plain();
    lemma_date_plain(secs);
    lemma_decimal_plain(w as nat);
    assert forall|a: Seq<char>, b: Seq<char>| plain_text(a) && plain_text(b) implies #[trigger] plain_text(
        a + b,
    ) by {
        lemma_plain_concat(a, b);
    }
    assert forall|s: Seq<char>| plain_text(s) implies #[trigger] escapes_not_p(text_bytes(s)) by {
        lemma_plain_bytes(s);
    }
    assert forall|a: Seq<u8>, b: Seq<u8>| escapes_not_p(a) && escapes_not_p(b) implies #[trigger] escapes_not_p(
        a + b,
    ) by {
        lemma_escapes_concat(a, b);
    }
    assert(plain_text(separator_line(w)));
    assert(escapes_not_p(esc_init()));
    assert(escapes_not_p(esc_align(0)));
    assert(escapes_not_p(esc_align(1)));
}

/// The test ticket with a cash drawer is the one without, with the drawer
/// pulse on pin 2 inserted just before the final feed and cut (its last seven
/// bytes); the ticket without a drawer holds no `ESC p` command.
pub proof fn law_drawer_pulse_before_feed_and_cut(paper_width_mm: u8, secs: u64)
    ensures
        test_ticket(paper_width_mm, false, secs).len() >= 7,
        test_ticket(paper_width_mm, true, secs) == pulse_before_last_seven(
            test_ticket(paper_width_mm, false, secs),
        ),
        !has_esc_p(test_ticket(paper_width_mm, false, secs)),
{
    let body = ticket_body(paper_width_mm, secs);
    let tail = ticket_tail();
    lemma_literals_plain();
    lemma_plain_bytes("\n\n\n\n"@);
    reveal_strlit("\n\n\n\n");
    assert(full_cut().len() == 3);
    assert(tail.len() == 7);
    let t0 = test_ticket(paper_width_mm, false, secs);
    assert(body + Seq::<u8>::empty() =~= body);
    assert(t0 =~= body + tail);
    assert(t0.take(t0.len() - 7) =~= body);
    assert(t0.skip(t0.len() - 7) =~= tail);
    lemma_body_escapes(paper_width_mm, secs);
    assert(escapes_not_p(full_cut()));
    lemma_escapes_concat(text_bytes("\n\n\n\n"@), full_cut());
    lemma_escapes_concat(body, tail);
    if has_esc_p(t0) {
        let i = choose|i: int| 0 <= i && i + 1 < t0.len() && #[trigger] t0[i] == 0x1Bu8 && t0[i + 1] == 0x70u8;
        assert(t0[i] == 0x1Bu8);
    }
}

/// Whether `x` stands somewhere in `b`.
pub open spec fn has_infix(b: Seq<u8>, x: Seq<u8>) -> bool {
    exists|k: int| 0 <= k && k + x.len() <= b.len() && #[trigger] b.subrange(k, k + x.len()) == x
}

/// The line that reports the paper width: `Papel : <w> mm`.
pub open spec fn paper_line(paper_width_mm: u8) -> Seq<u8> {
    text_bytes("Papel : "@ + decimal(paper_width_mm as nat) + " mm\n"@)
}

/// Left alignment, then a full line of `n` dashes.
pub open spec fn dash_line(n: nat) -> Seq<u8> {
    esc_align(0) + text_bytes(Seq::new(n, |i: int| '-')) + text_bytes("\n"@)
}

proof fn lemma_infix_grows(s: Seq<u8>, e: Seq<u8>, x: Seq<u8>)
    requires
        has_infix(s, x),
    ensures
        has_infix(s + e, x),
{
    let k = choose|k: int| 0 <= k && k + x.len() <= s.len() && #[trigger] s.subrange(k, k + x.len()) == x;
    assert((s + e).subrange(k, k + x.len()) =~= s.subrange(k, k + x.len()));
}

proof fn lemma_infix_at_end(h: Seq<u8>, x: Seq<u8>)
    ensures
        has_infix(h + x, x),
{
    assert((h + x).subrange(h.len() as int, (h.len() + x.len()) as int) =~= x);
}

proof fn lemma_infix_at_end3(h: Seq<u8>, a: Seq<u8>, l: Seq<u8>, n: Seq<u8>)
    ensures
        has_infix(h + a + l + n, a + l + n),
{
    let x = a + l + n;
    assert((h + a + l + n).subrange(h.len() as int, (h.len() + x.len()) as int) =~= x);
}

proof fn lemma_ticket_paper_line(w: u8, open_drawer: bool, secs: u64)
    ensures
        has_infix(test_ticket(w, open_drawer, secs), paper_line(w)),
{
    let x = paper_line(w);
    assert forall|h: Seq<u8>| #[trigger] has_infix(h + x, x) by {
        lemma_infix_at_end(h, x);
    }
    assert forall|s: Seq<u8>, e: Seq<u8>| has_infix(s, x) implies #[trigger] has_infix(s + e, x) by {
        lemma_infix_grows(s, e, x);
    }
}

proof fn lemma_ticket_dash_line(w: u8, open_drawer: bool, secs: u64)
    ensures
        has_infix(
            test_ticket(w, open_drawer, secs),
            dash_line(
                if w <= 58 {
                    32
                } else {
                    48
                },
            ),
        ),
{
    let n: nat = if w <= 58 {
        32
    } else {
        48
    };
    assert(separator_line(w) =~= Seq::new(n, |i: int| '-'));
    let x = dash_line(n);
    assert forall|h: Seq<u8>, l: Seq<u8>|
        l == text_bytes(separator_line(w)) implies #[trigger] has_infix(
        h + esc_align(0) + l + text_bytes("\n"@),
        x,
    ) by {
        lemma_infix_at_end3(h, esc_align(0), l, text_bytes("\n"@));
    }
    assert forall|s: Seq<u8>, e: Seq<u8>| has_infix(s, x) implies #[trigger] has_infix(s + e, x) by {
        lemma_infix_grows(s, e, x);
    }
}

/// A test ticket states the paper it was made for: it holds the line
/// `Papel : <w> mm` and, after switching to left alignment, a line of 32
/// dashes on paper up to 58 mm and of 48 dashes on wider paper; it holds the
/// drawer command `ESC p` exactly when a drawer pulse was asked for.
pub proof fn law_test_ticket_fits_its_paper(paper_width_mm: u8, open_drawer: bool, secs: u64)
    ensures
        has_infix(test_ticket(paper_width_mm, open_drawer, secs), paper_line(paper_width_mm)),
        has_infix(
            test_ticket(paper_width_mm, open_drawer, secs),
            dash_line(
                if paper_width_mm <= 58 {
                    32
                } else {
                    48
                },
            ),
        ),
        has_esc_p(test_ticket(paper_width_mm, open_drawer, secs)) <==> open_drawer,
{
    lemma_ticket_paper_line(paper_width_mm, open_drawer, secs);
    lemma_ticket_dash_line(paper_width_mm, open_drawer, secs);
    let t = test_ticket(paper_width_mm, open_drawer, secs);
    if open_drawer {
        let body = ticket_body(paper_width_mm, secs);
        assert(t[body.len() as int] == 0x1Bu8);
        assert(t[body.len() as int + 1] == 0x70u8);
    } else {
        law_drawer_pulse_before_feed_and_cut(paper_width_mm, secs);
    }
}

} // verus!
