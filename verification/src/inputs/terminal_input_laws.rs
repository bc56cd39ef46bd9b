//! What the bytes of a terminal mean: which bytes each key, each move of the mouse and each graphics
//! response is written with, and that just this is read of them.
use vstd::prelude::*;
use vstd::string::*;
use vstd::utf8::{
    char_is_scalar, encode_scalar, encode_utf8, encode_utf8_decode_utf8, encode_utf8_first_scalar,
    encode_utf8_valid_utf8,
};

use crate::inputs::event::{
    Event, KeyCode, KeyEvent, KeyEventKind, KeyModifiers, MouseButton, MouseEvent, MouseEventKind,
};
use crate::inputs::terminal_input::{
    csi_event, image_id_of, law_response_is_told_apart, mouse_end, parsed_response, processed, received,
    says_evicted, sequence_end, step, terminator, InputView, StepView,
};
use crate::text;
use crate::text::{
    decimal, find_from, index_from, latin1, occurs_at, parsed_uint, split, utf8_lossy,
};

verus! {

// ---------------------------------------------------------------------------------------------
// One event
// ---------------------------------------------------------------------------------------------
/// Whether bytes that arrive at once give just one event: it is queued behind those that wait, no byte
/// is left, no response is made of them, and the given button is held then.
#[verifier::opaque]
pub open spec fn gives(
    s: InputView,
    bytes: Seq<u8>,
    event: Event,
    held: Option<MouseButton>,
) -> bool {
    received(s, bytes) == (InputView {
        bytes: Seq::empty(),
        events: s.events.push(event),
        held,
        waited: false,
        ..s
    })
}

/// Whether bytes that arrive at once give just a press of a key.
pub open spec fn gives_key(
    s: InputView,
    bytes: Seq<u8>,
    code: KeyCode,
    shift: bool,
    alt: bool,
    control: bool,
) -> bool {
    gives(
        s,
        bytes,
        Event::Key(
            KeyEvent {
                code,
                modifiers: KeyModifiers { shift, alt, control },
                kind: KeyEventKind::Press,
            },
        ),
        s.held,
    )
}

proof fn lemma_one_event(s: InputView, bytes: Seq<u8>, event: Event, held: Option<MouseButton>)
    requires
        s.bytes.len() == 0,
        bytes.len() > 0,
        step(bytes, false, s.held) == (StepView::Event { used: bytes.len() as int, event, held }),
    ensures
        gives(s, bytes, event, held),
{
    reveal(gives);
    assert(s.bytes + bytes =~= bytes);
    assert(bytes.skip(bytes.len() as int) =~= Seq::<u8>::empty());
    let now = InputView { bytes, waited: false, ..s };
    let next = InputView {
        bytes: Seq::empty(),
        events: s.events.push(event),
        held,
        waited: false,
        ..s
    };
    assert(processed(now) == processed(next));
}

/// The bytes of a text of ASCII characters.
pub open spec fn ascii(s: Seq<char>) -> Seq<u8> {
    Seq::new(s.len(), |i: int| s[i] as u8)
}

/// Whether a text can stand between the start of a control sequence and its last byte.
pub open spec fn is_parameters(s: Seq<char>) -> bool {
    &&& forall|i: int| 0 <= i < s.len() ==> 32 <= (#[trigger] s[i]) as int && (s[i] as int) < 64
    &&& s.len() > 0 ==> s[0] != '<'
}

/// A control sequence: an escape, a bracket, parameters and the byte that ends it.
pub open spec fn control_sequence(params: Seq<char>, last: u8) -> Seq<u8> {
    seq![27u8, 91u8] + ascii(params) + seq![last]
}

proof fn lemma_sequence_end(buf: Seq<u8>, i: int)
    requires
        0 <= i < buf.len(),
        forall|k: int| i <= k < buf.len() - 1 ==> #[trigger] buf[k] < 65,
        65 <= buf.last() <= 90 || 97 <= buf.last() <= 122 || buf.last() == 126,
    ensures
        sequence_end(buf, i) == buf.len() - 1,
    decreases buf.len() - i,
{
    if i < buf.len() - 1 {
        assert(buf[i] < 65);
        lemma_sequence_end(buf, i + 1);
    }
}

proof fn lemma_control_sequence(s: InputView, params: Seq<char>, last: u8, event: Event)
    requires
        s.bytes.len() == 0,
        is_parameters(params),
        65 <= last <= 90 || 97 <= last <= 122 || last == 126,
        csi_event(last, params) == Some(event),
    ensures
        gives(s, control_sequence(params, last), event, s.held),
{
    let buf = control_sequence(params, last);
    let n = params.len();
    assert forall|k: int| 2 <= k < buf.len() - 1 implies #[trigger] buf[k] < 65 by {
        assert(buf[k] == params[k - 2] as u8);
        assert(32 <= params[k - 2] as int && (params[k - 2] as int) < 64);
    }
    if n > 0 {
        assert(buf[2] == params[0] as u8);
        assert(32 <= params[0] as int && (params[0] as int) < 64);
    }
    assert(buf[2] != 60);
    lemma_sequence_end(buf, 2);
    let end = buf.len() - 1;
    assert(latin1(buf.subrange(2, end)) =~= params) by {
        assert forall|i: int| 0 <= i < n implies latin1(buf.subrange(2, end))[i] == #[trigger] params[i] by {
            assert(32 <= params[i] as int && (params[i] as int) < 64);
            assert(buf.subrange(2, end)[i] == params[i] as u8);
        }
    }
    assert(buf[0] == 27 && buf[1] == 91);
    lemma_one_event(s, buf, event, s.held);
}

/// The number that names modifiers: one more than the sum of 1 for Shift, 2 for Alt and 4 for Control.
pub open spec fn modifier_number(shift: bool, alt: bool, control: bool) -> nat {
    1 + (if shift {
        1nat
    } else {
        0
    }) + (if alt {
        2nat
    } else {
        0
    }) + (if control {
        4nat
    } else {
        0
    })
}

/// Parameters of a control sequence: a number and the modifiers behind a semicolon.
pub open spec fn with_modifiers(n: nat, shift: bool, alt: bool, control: bool) -> Seq<char> {
    decimal(n) + seq![';'] + decimal(modifier_number(shift, alt, control))
}

proof fn lemma_digits(n: nat)
    ensures
        decimal(n).len() > 0,
        forall|i: int|
            0 <= i < decimal(n).len() ==> 48 <= (#[trigger] decimal(n)[i]) as int && (decimal(
                n,
            )[i] as int) < 58,
{
    text::lemma_decimal_value(n);
    assert forall|i: int| 0 <= i < decimal(n).len() implies 48 <= (#[trigger] decimal(n)[i]) as int
        && (decimal(n)[i] as int) < 58 by {
        assert(text::is_digit(decimal(n)[i]));
    }
}

proof fn lemma_split_two(a: Seq<char>, b: Seq<char>, sep: char)
    requires
        forall|i: int| 0 <= i < a.len() ==> #[trigger] a[i] != sep,
    ensures
        index_from(a + seq![sep] + b, sep, 0) == a.len(),
        (a + seq![sep] + b).skip(a.len() as int + 1) == b,
        split(a + seq![sep] + b, sep) == seq![a] + split(b, sep),
{
    let s = a + seq![sep] + b;
    text::lemma_index_from(s, sep, 0);
    let k = index_from(s, sep, 0);
    assert(s[a.len() as int] == sep);
    if k < a.len() {
        assert(s[k] == a[k]);
    }
    assert(s.take(k) =~= a);
    assert(s.skip(k + 1) =~= b);
}

proof fn lemma_split_one(a: Seq<char>, sep: char)
    requires
        forall|i: int| 0 <= i < a.len() ==> #[trigger] a[i] != sep,
    ensures
        split(a, sep) == seq![a],
{
    text::lemma_index_from(a, sep, 0);
}

proof fn lemma_with_modifiers(n: nat, shift: bool, alt: bool, control: bool)
    ensures
        is_parameters(with_modifiers(n, shift, alt, control)),
        split(with_modifiers(n, shift, alt, control), ';') == seq![
            decimal(n),
            decimal(modifier_number(shift, alt, control)),
        ],
        index_from(with_modifiers(n, shift, alt, control), ';', 0) == decimal(n).len(),
        with_modifiers(n, shift, alt, control).skip(decimal(n).len() as int + 1) == decimal(
            modifier_number(shift, alt, control),
        ),
        parsed_uint(decimal(modifier_number(shift, alt, control)), 255) == Some(
            modifier_number(shift, alt, control),
        ),
        is_parameters(decimal(n)),
        split(decimal(n), ';') == seq![decimal(n)],
{
    let m = modifier_number(shift, alt, control);
    let a = decimal(n);
    let b = decimal(m);
    let s = with_modifiers(n, shift, alt, control);
    lemma_digits(n);
    lemma_digits(m);
    text::lemma_decimal_reads_back(m, 255);
    lemma_split_two(a, b, ';');
    lemma_split_one(b, ';');
    lemma_split_one(a, ';');
    assert(seq![a] + seq![b] =~= seq![a, b]);
    assert forall|i: int| 0 <= i < s.len() implies 32 <= (#[trigger] s[i]) as int && (s[i] as int)
        < 64 by {
        if i < a.len() {
            assert(s[i] == a[i]);
        } else if i > a.len() {
            assert(s[i] == b[i - a.len() - 1]);
        }
    }
    assert(s[0] == a[0]);
}

/// The four arrows, Home and End, as control sequences, as the sequences of the other cursor mode, and
/// with modifiers: each letter gives its own key.
pub proof fn law_arrows_and_edges_are_read(s: InputView, shift: bool, alt: bool, control: bool)
    requires
        s.bytes.len() == 0,
    ensures
        gives_key(s, seq![27u8, 91u8, 65u8], KeyCode::Up, false, false, false),
        gives_key(s, seq![27u8, 91u8, 66u8], KeyCode::Down, false, false, false),
        gives_key(s, seq![27u8, 91u8, 67u8], KeyCode::Right, false, false, false),
        gives_key(s, seq![27u8, 91u8, 68u8], KeyCode::Left, false, false, false),
        gives_key(s, seq![27u8, 91u8, 72u8], KeyCode::Home, false, false, false),
        gives_key(s, seq![27u8, 91u8, 70u8], KeyCode::End, false, false, false),
        gives_key(s, seq![27u8, 91u8, 90u8], KeyCode::BackTab, true, false, false),
        gives_key(s, seq![27u8, 79u8, 65u8], KeyCode::Up, false, false, false),
        gives_key(s, seq![27u8, 79u8, 66u8], KeyCode::Down, false, false, false),
        gives_key(s, seq![27u8, 79u8, 67u8], KeyCode::Right, false, false, false),
        gives_key(s, seq![27u8, 79u8, 68u8], KeyCode::Left, false, false, false),
        gives_key(s, seq![27u8, 79u8, 72u8], KeyCode::Home, false, false, false),
        gives_key(s, seq![27u8, 79u8, 70u8], KeyCode::End, false, false, false),
        ({
            let p = with_modifiers(1, shift, alt, control);
            &&& gives_key(s, control_sequence(p, 65), KeyCode::Up, shift, alt, control)
            &&& gives_key(s, control_sequence(p, 66), KeyCode::Down, shift, alt, control)
            &&& gives_key(s, control_sequence(p, 67), KeyCode::Right, shift, alt, control)
            &&& gives_key(s, control_sequence(p, 68), KeyCode::Left, shift, alt, control)
            &&& gives_key(s, control_sequence(p, 72), KeyCode::Home, shift, alt, control)
            &&& gives_key(s, control_sequence(p, 70), KeyCode::End, shift, alt, control)
        }),
{
    let none = Seq::<char>::empty();
    let off = KeyModifiers { shift: false, alt: false, control: false };
    text::lemma_index_from(none, ';', 0);
    lemma_plain_sequence(s, 65, KeyCode::Up);
    lemma_plain_sequence(s, 66, KeyCode::Down);
    lemma_plain_sequence(s, 67, KeyCode::Right);
    lemma_plain_sequence(s, 68, KeyCode::Left);
    lemma_plain_sequence(s, 72, KeyCode::Home);
    lemma_plain_sequence(s, 70, KeyCode::End);
    let back = KeyModifiers { shift: true, alt: false, control: false };
    lemma_control_sequence(s, none, 90, key(KeyCode::BackTab, back));
    assert(control_sequence(none, 90) =~= seq![27u8, 91u8, 90u8]);
    lemma_other_mode(s, 65, KeyCode::Up);
    lemma_other_mode(s, 66, KeyCode::Down);
    lemma_other_mode(s, 67, KeyCode::Right);
    lemma_other_mode(s, 68, KeyCode::Left);
    lemma_other_mode(s, 72, KeyCode::Home);
    lemma_other_mode(s, 70, KeyCode::End);
    let p = with_modifiers(1, shift, alt, control);
    let m = KeyModifiers { shift, alt, control };
    lemma_with_modifiers(1, shift, alt, control);
    lemma_control_sequence(s, p, 65, key(KeyCode::Up, m));
    lemma_control_sequence(s, p, 66, key(KeyCode::Down, m));
    lemma_control_sequence(s, p, 67, key(KeyCode::Right, m));
    lemma_control_sequence(s, p, 68, key(KeyCode::Left, m));
    lemma_control_sequence(s, p, 72, key(KeyCode::Home, m));
    lemma_control_sequence(s, p, 70, key(KeyCode::End, m));
}

spec fn key(code: KeyCode, modifiers: KeyModifiers) -> Event {
    Event::Key(KeyEvent { code, modifiers, kind: KeyEventKind::Press })
}

proof fn lemma_plain_sequence(s: InputView, last: u8, code: KeyCode)
    requires
        s.bytes.len() == 0,
        65 <= last <= 90,
        csi_event(last, Seq::empty()) == Some(
            key(code, KeyModifiers { shift: false, alt: false, control: false }),
        ),
    ensures
        gives_key(s, seq![27u8, 91u8, last], code, false, false, false),
{
    let none = Seq::<char>::empty();
    lemma_control_sequence(
        s,
        none,
        last,
        key(code, KeyModifiers { shift: false, alt: false, control: false }),
    );
    assert(control_sequence(none, last) =~= seq![27u8, 91u8, last]);
}

proof fn lemma_other_mode(s: InputView, last: u8, code: KeyCode)
    requires
        s.bytes.len() == 0,
        step(seq![27u8, 79u8, last], false, s.held) == (StepView::Event {
            used: 3,
            event: key(code, KeyModifiers { shift: false, alt: false, control: false }),
            held: s.held,
        }),
    ensures
        gives_key(s, seq![27u8, 79u8, last], code, false, false, false),
{
    lemma_one_event(
        s,
        seq![27u8, 79u8, last],
        key(code, KeyModifiers { shift: false, alt: false, control: false }),
        s.held,
    );
}

/// The keys that are written as a number before a tilde, with and without modifiers; and the first four
/// function keys of the other cursor mode.
pub proof fn law_numbered_keys_are_read(s: InputView, shift: bool, alt: bool, control: bool)
    requires
        s.bytes.len() == 0,
    ensures
        numbered(s, 1, KeyCode::Home, shift, alt, control),
        numbered(s, 2, KeyCode::Insert, shift, alt, control),
        numbered(s, 3, KeyCode::Delete, shift, alt, control),
        numbered(s, 4, KeyCode::End, shift, alt, control),
        numbered(s, 5, KeyCode::PageUp, shift, alt, control),
        numbered(s, 6, KeyCode::PageDown, shift, alt, control),
        numbered(s, 11, KeyCode::F(1), shift, alt, control),
        numbered(s, 12, KeyCode::F(2), shift, alt, control),
        numbered(s, 13, KeyCode::F(3), shift, alt, control),
        numbered(s, 14, KeyCode::F(4), shift, alt, control),
        numbered(s, 15, KeyCode::F(5), shift, alt, control),
        numbered(s, 17, KeyCode::F(6), shift, alt, control),
        numbered(s, 18, KeyCode::F(7), shift, alt, control),
        numbered(s, 19, KeyCode::F(8), shift, alt, control),
        numbered(s, 20, KeyCode::F(9), shift, alt, control),
        numbered(s, 21, KeyCode::F(10), shift, alt, control),
        numbered(s, 23, KeyCode::F(11), shift, alt, control),
        numbered(s, 24, KeyCode::F(12), shift, alt, control),
        gives_key(s, seq![27u8, 79u8, 80u8], KeyCode::F(1), false, false, false),
        gives_key(s, seq![27u8, 79u8, 81u8], KeyCode::F(2), false, false, false),
        gives_key(s, seq![27u8, 79u8, 82u8], KeyCode::F(3), false, false, false),
        gives_key(s, seq![27u8, 79u8, 83u8], KeyCode::F(4), false, false, false),
{
    lemma_numbered(s, 1, KeyCode::Home, shift, alt, control);
    lemma_numbered(s, 2, KeyCode::Insert, shift, alt, control);
    lemma_numbered(s, 3, KeyCode::Delete, shift, alt, control);
    lemma_numbered(s, 4, KeyCode::End, shift, alt, control);
    lemma_numbered(s, 5, KeyCode::PageUp, shift, alt, control);
    lemma_numbered(s, 6, KeyCode::PageDown, shift, alt, control);
    lemma_numbered(s, 11, KeyCode::F(1), shift, alt, control);
    lemma_numbered(s, 12, KeyCode::F(2), shift, alt, control);
    lemma_numbered(s, 13, KeyCode::F(3), shift, alt, control);
    lemma_numbered(s, 14, KeyCode::F(4), shift, alt, control);
    lemma_numbered(s, 15, KeyCode::F(5), shift, alt, control);
    lemma_numbered(s, 17, KeyCode::F(6), shift, alt, control);
    lemma_numbered(s, 18, KeyCode::F(7), shift, alt, control);
    lemma_numbered(s, 19, KeyCode::F(8), shift, alt, control);
    lemma_numbered(s, 20, KeyCode::F(9), shift, alt, control);
    lemma_numbered(s, 21, KeyCode::F(10), shift, alt, control);
    lemma_numbered(s, 23, KeyCode::F(11), shift, alt, control);
    lemma_numbered(s, 24, KeyCode::F(12), shift, alt, control);
    lemma_other_mode(s, 80, KeyCode::F(1));
    lemma_other_mode(s, 81, KeyCode::F(2));
    lemma_other_mode(s, 82, KeyCode::F(3));
    lemma_other_mode(s, 83, KeyCode::F(4));
}

/// Whether a number before a tilde gives a key, alone and with modifiers.
pub open spec fn numbered(
    s: InputView,
    n: nat,
    code: KeyCode,
    shift: bool,
    alt: bool,
    control: bool,
) -> bool {
    &&& gives_key(s, control_sequence(decimal(n), 126), code, false, false, false)
    &&& gives_key(
        s,
        control_sequence(with_modifiers(n, shift, alt, control), 126),
        code,
        shift,
        alt,
        control,
    )
}

proof fn lemma_numbered(
    s: InputView,
    n: nat,
    code: KeyCode,
    shift: bool,
    alt: bool,
    control: bool,
)
    requires
        s.bytes.len() == 0,
        n <= 255,
        crate::inputs::terminal_input::tilde_key(n as int) == code,
    ensures
        numbered(s, n, code, shift, alt, control),
{
    lemma_with_modifiers(n, shift, alt, control);
    text::lemma_decimal_reads_back(n, 255);
    lemma_control_sequence(
        s,
        decimal(n),
        126,
        key(code, KeyModifiers { shift: false, alt: false, control: false }),
    );
    lemma_control_sequence(
        s,
        with_modifiers(n, shift, alt, control),
        126,
        key(code, KeyModifiers { shift, alt, control }),
    );
}

/// The keys of the Kitty keyboard protocol, which are written as the number of a character: the four
/// that have a name of their own, and every other character of ASCII.
pub proof fn law_kitty_keys_are_read(s: InputView, c: u8, shift: bool, alt: bool, control: bool)
    requires
        s.bytes.len() == 0,
        c < 127 && c != 27 && c != 13 && c != 9,
    ensures
        kitty(s, 27, KeyCode::Esc, shift, alt, control),
        kitty(s, 13, KeyCode::Enter, shift, alt, control),
        kitty(s, 9, KeyCode::Tab, shift, alt, control),
        kitty(s, 127, KeyCode::Backspace, shift, alt, control),
        kitty(s, c as nat, KeyCode::Char(c as char), shift, alt, control),
{
    lemma_kitty(s, 27, KeyCode::Esc, shift, alt, control);
    lemma_kitty(s, 13, KeyCode::Enter, shift, alt, control);
    lemma_kitty(s, 9, KeyCode::Tab, shift, alt, control);
    lemma_kitty(s, 127, KeyCode::Backspace, shift, alt, control);
    lemma_kitty(s, c as nat, KeyCode::Char(c as char), shift, alt, control);
}

/// Whether a number of the Kitty keyboard protocol gives a key, alone and with modifiers.
pub open spec fn kitty(
    s: InputView,
    n: nat,
    code: KeyCode,
    shift: bool,
    alt: bool,
    control: bool,
) -> bool {
    &&& gives_key(s, control_sequence(decimal(n), 117), code, false, false, false)
    &&& gives_key(
        s,
        control_sequence(with_modifiers(n, shift, alt, control), 117),
        code,
        shift,
        alt,
        control,
    )
}

proof fn lemma_kitty(s: InputView, n: nat, code: KeyCode, shift: bool, alt: bool, control: bool)
    requires
        s.bytes.len() == 0,
        n <= 255,
        crate::inputs::terminal_input::kitty_key(n as int) == code,
    ensures
        kitty(s, n, code, shift, alt, control),
{
    lemma_with_modifiers(n, shift, alt, control);
    text::lemma_decimal_reads_back(n, u32::MAX as nat);
    lemma_control_sequence(
        s,
        decimal(n),
        117,
        key(code, KeyModifiers { shift: false, alt: false, control: false }),
    );
    lemma_control_sequence(
        s,
        with_modifiers(n, shift, alt, control),
        117,
        key(code, KeyModifiers { shift, alt, control }),
    );
}

/// The keys that one control byte stands for: Backspace, Tab and Enter, Control with the space, and
/// Control with the letter that the byte is the number of in the alphabet.
pub proof fn law_control_bytes_are_read(s: InputView, nth: u8)
    requires
        s.bytes.len() == 0,
        1 <= nth <= 26,
        nth != 8 && nth != 9 && nth != 10 && nth != 13,
    ensures
        gives_key(s, seq![127u8], KeyCode::Backspace, false, false, false),
        gives_key(s, seq![8u8], KeyCode::Backspace, false, false, false),
        gives_key(s, seq![9u8], KeyCode::Tab, false, false, false),
        gives_key(s, seq![10u8], KeyCode::Enter, false, false, false),
        gives_key(s, seq![13u8], KeyCode::Enter, false, false, false),
        gives_key(s, seq![0u8], KeyCode::Char(' '), false, false, true),
        gives_key(s, seq![nth], KeyCode::Char(('a' as u8 + nth - 1) as char), false, false, true),
        gives_key(s, seq![3u8], KeyCode::Char('c'), false, false, true),
        gives_key(s, seq![26u8], KeyCode::Char('z'), false, false, true),
{
    let off = KeyModifiers { shift: false, alt: false, control: false };
    let on = KeyModifiers { shift: false, alt: false, control: true };
    lemma_one_event(s, seq![127u8], key(KeyCode::Backspace, off), s.held);
    lemma_one_event(s, seq![8u8], key(KeyCode::Backspace, off), s.held);
    lemma_one_event(s, seq![9u8], key(KeyCode::Tab, off), s.held);
    lemma_one_event(s, seq![10u8], key(KeyCode::Enter, off), s.held);
    lemma_one_event(s, seq![13u8], key(KeyCode::Enter, off), s.held);
    lemma_one_event(s, seq![0u8], key(KeyCode::Char(' '), on), s.held);
    lemma_one_event(s, seq![nth], key(KeyCode::Char(('a' as u8 + nth - 1) as char), on), s.held);
    lemma_one_event(s, seq![3u8], key(KeyCode::Char('c'), on), s.held);
    lemma_one_event(s, seq![26u8], key(KeyCode::Char('z'), on), s.held);
}

/// An escape before a character of ASCII is that character with Alt, unless it starts a sequence; an
/// escape alone is the Esc key once a read has brought nothing more, and waits till then.
pub proof fn law_escape_is_alt_or_itself(s: InputView, c: u8)
    requires
        s.bytes.len() == 0,
        c < 128 && c != 91 && c != 79 && c != 95,
    ensures
        gives_key(s, seq![27u8, c], KeyCode::Char(c as char), false, true, false),
        received(s, seq![27u8]) == (InputView { bytes: seq![27u8], waited: false, ..s }),
        received(received(s, seq![27u8]), Seq::empty()) == (InputView {
            bytes: Seq::empty(),
            waited: false,
            events: s.events.push(
                Event::Key(
                    KeyEvent {
                        code: KeyCode::Esc,
                        modifiers: KeyModifiers { shift: false, alt: false, control: false },
                        kind: KeyEventKind::Press,
                    },
                ),
            ),
            ..s
        }),
{
    let off = KeyModifiers { shift: false, alt: false, control: false };
    lemma_one_event(
        s,
        seq![27u8, c],
        key(KeyCode::Char(c as char), KeyModifiers { shift: false, alt: true, control: false }),
        s.held,
    );
    let e = seq![27u8];
    assert(s.bytes + e =~= e);
    assert(e.skip(0) =~= e);
    let one = received(s, e);
    assert(one == (InputView { bytes: e, waited: false, ..s }));
    assert(one.bytes + Seq::<u8>::empty() =~= e);
    assert(e.skip(1) =~= Seq::<u8>::empty());
    let now = InputView { bytes: e, waited: true, ..one };
    let next = InputView {
        bytes: Seq::empty(),
        events: s.events.push(key(KeyCode::Esc, off)),
        waited: false,
        ..one
    };
    assert(processed(now) == processed(next));
}

proof fn lemma_first_byte(u: u32)
    requires
        128 <= u <= 0x10ffff,
    ensures
        ({
            let first = encode_scalar(u)[0];
            let n = encode_scalar(u).len();
            &&& 0xc0 <= first <= 0xf7
            &&& 0xc0 <= first <= 0xdf <==> n == 2
            &&& 0xe0 <= first <= 0xef <==> n == 3
        }) || 0xd800 <= u <= 0xdfff,
{
    assert(0xc0u8 <= (0xC0u8 | ((u >> 6) & 0x1F) as u8) <= 0xdfu8) by (bit_vector);
    assert(0xe0u8 <= (0xE0u8 | ((u >> 12) & 0x0F) as u8) <= 0xefu8) by (bit_vector);
    assert(0xf0u8 <= (0xF0u8 | ((u >> 18) & 0x7) as u8) <= 0xf7u8) by (bit_vector);
}

/// A character of any language is one key press, however many bytes it is written with.
pub proof fn law_characters_are_read(s: InputView, c: char)
    requires
        s.bytes.len() == 0,
        c as int >= 128,
    ensures
        gives_key(s, encode_utf8(seq![c]), KeyCode::Char(c), false, false, false),
{
    let cs = seq![c];
    let bytes = encode_utf8(cs);
    encode_utf8_valid_utf8(cs);
    encode_utf8_decode_utf8(cs);
    encode_utf8_first_scalar(cs);
    char_is_scalar(c);
    let u = c as u32;
    assert(cs.drop_first() =~= Seq::<char>::empty());
    reveal_with_fuel(encode_utf8, 3);
    assert(bytes =~= encode_scalar(u));
    lemma_first_byte(u);
    assert(bytes.take(bytes.len() as int) =~= bytes);
    lemma_one_event(
        s,
        bytes,
        key(KeyCode::Char(c), KeyModifiers { shift: false, alt: false, control: false }),
        s.held,
    );
}

// ---------------------------------------------------------------------------------------------
// The mouse
// ---------------------------------------------------------------------------------------------
/// A report of the mouse: a button code, a column and a row, counted from one, and whether a button
/// was released.
pub open spec fn mouse_report(code: u16, column: u16, row: u16, release: bool) -> Seq<u8> {
    seq![27u8, 91u8, 60u8] + ascii(
        decimal(code as nat) + seq![';'] + (decimal(column as nat) + seq![';'] + decimal(row as nat)),
    ) + seq![
        if release {
            109u8
        } else {
            77u8
        },
    ]
}

proof fn lemma_mouse_end(buf: Seq<u8>, i: int)
    requires
        0 <= i < buf.len(),
        forall|k: int| i <= k < buf.len() - 1 ==> #[trigger] buf[k] < 65,
        buf.last() == 77 || buf.last() == 109,
    ensures
        mouse_end(buf, i) == buf.len() - 1,
    decreases buf.len() - i,
{
    if i < buf.len() - 1 {
        assert(buf[i] < 65);
        lemma_mouse_end(buf, i + 1);
    }
}

/// The event of the mouse at a cell.
pub open spec fn mouse_event(
    kind: MouseEventKind,
    column: u16,
    row: u16,
    shift: bool,
    alt: bool,
    control: bool,
) -> Event {
    Event::Mouse(
        MouseEvent { kind, column, row, modifiers: KeyModifiers { shift, alt, control } },
    )
}

proof fn lemma_mouse(s: InputView, code: u16, column: u16, row: u16, release: bool)
    requires
        s.bytes.len() == 0,
        column > 0,
        row > 0,
    ensures
        gives(
            s,
            mouse_report(code, column, row, release),
            Event::Mouse(
                MouseEvent {
                    kind: crate::inputs::terminal_input::mouse_kind(code as int, release, s.held),
                    column: (column - 1) as u16,
                    row: (row - 1) as u16,
                    modifiers: crate::inputs::terminal_input::mouse_modifiers(code as int),
                },
            ),
            crate::inputs::terminal_input::held_after(code as int, release, s.held),
        ),
{
    let a = decimal(code as nat);
    let b = decimal(column as nat);
    let c = decimal(row as nat);
    let params = a + seq![';'] + (b + seq![';'] + c);
    let buf = mouse_report(code, column, row, release);
    lemma_digits(code as nat);
    lemma_digits(column as nat);
    lemma_digits(row as nat);
    text::lemma_decimal_reads_back(code as nat, 65535);
    text::lemma_decimal_reads_back(column as nat, 65535);
    text::lemma_decimal_reads_back(row as nat, 65535);
    lemma_split_two(a, b + seq![';'] + c, ';');
    lemma_split_two(b, c, ';');
    lemma_split_one(c, ';');
    assert(split(params, ';') =~= seq![a, b, c]);
    assert forall|i: int| 0 <= i < params.len() implies 32 <= (#[trigger] params[i]) as int && (
    params[i] as int) < 64 by {
        let t = b + seq![';'] + c;
        if i < a.len() {
            assert(params[i] == a[i]);
        } else if i > a.len() {
            let k = i - a.len() - 1;
            assert(params[i] == t[k]);
            if k < b.len() {
                assert(t[k] == b[k]);
            } else if k > b.len() {
                assert(t[k] == c[k - b.len() - 1]);
            }
        }
    }
    assert forall|k: int| 3 <= k < buf.len() - 1 implies #[trigger] buf[k] < 65 by {
        assert(buf[k] == params[k - 3] as u8);
        assert(32 <= params[k - 3] as int && (params[k - 3] as int) < 64);
    }
    lemma_mouse_end(buf, 3);
    let end = buf.len() - 1;
    assert(latin1(buf.subrange(3, end)) =~= params) by {
        assert forall|i: int| 0 <= i < params.len() implies latin1(buf.subrange(3, end))[i]
            == #[trigger] params[i] by {
            assert(32 <= params[i] as int && (params[i] as int) < 64);
            assert(buf.subrange(3, end)[i] == params[i] as u8);
        }
    }
    assert(buf[0] == 27 && buf[1] == 91 && buf[2] == 60);
    let event = Event::Mouse(
        MouseEvent {
            kind: crate::inputs::terminal_input::mouse_kind(code as int, release, s.held),
            column: (column - 1) as u16,
            row: (row - 1) as u16,
            modifiers: crate::inputs::terminal_input::mouse_modifiers(code as int),
        },
    );
    lemma_one_event(
        s,
        buf,
        event,
        crate::inputs::terminal_input::held_after(code as int, release, s.held),
    );
}

/// What modifiers add to a button code: 4 for Shift, 8 for Alt, 16 for Control.
pub open spec fn modifier_bits(shift: bool, alt: bool, control: bool) -> int {
    (if shift {
        4int
    } else {
        0
    }) + (if alt {
        8int
    } else {
        0
    }) + (if control {
        16int
    } else {
        0
    })
}

/// The reports of the mouse: 0, 1 and 2 are the left, the middle and the right button going down or
/// up, 64 to 67 the wheel up, down, left and right, and 32 more than a button a move, which is a drag
/// of the button that is held. Cells count from zero.
pub proof fn law_mouse_reports_are_read(
    s: InputView,
    column: u16,
    row: u16,
    shift: bool,
    alt: bool,
    control: bool,
    button: u16,
)
    requires
        s.bytes.len() == 0,
        column < 65535,
        row < 65535,
        button < 4,
    ensures
        ({
            let m = modifier_bits(shift, alt, control);
            let c = (column + 1) as u16;
            let r = (row + 1) as u16;
            let at = |kind: MouseEventKind| mouse_event(kind, column, row, shift, alt, control);
            let left = MouseButton::Left;
            let middle = MouseButton::Middle;
            let right = MouseButton::Right;
            &&& gives(s, mouse_report(m as u16, c, r, false), at(MouseEventKind::Down(left)), Some(left))
            &&& gives(
                s,
                mouse_report((m + 1) as u16, c, r, false),
                at(MouseEventKind::Down(middle)),
                Some(middle),
            )
            &&& gives(
                s,
                mouse_report((m + 2) as u16, c, r, false),
                at(MouseEventKind::Down(right)),
                Some(right),
            )
            &&& gives(s, mouse_report(m as u16, c, r, true), at(MouseEventKind::Up(left)), None)
            &&& gives(
                s,
                mouse_report((m + 1) as u16, c, r, true),
                at(MouseEventKind::Up(middle)),
                None,
            )
            &&& gives(
                s,
                mouse_report((m + 2) as u16, c, r, true),
                at(MouseEventKind::Up(right)),
                None,
            )
            &&& gives(
                s,
                mouse_report((m + 64) as u16, c, r, false),
                at(MouseEventKind::ScrollUp),
                s.held,
            )
            &&& gives(
                s,
                mouse_report((m + 65) as u16, c, r, false),
                at(MouseEventKind::ScrollDown),
                s.held,
            )
            &&& gives(
                s,
                mouse_report((m + 66) as u16, c, r, false),
                at(MouseEventKind::ScrollLeft),
                s.held,
            )
            &&& gives(
                s,
                mouse_report((m + 67) as u16, c, r, false),
                at(MouseEventKind::ScrollRight),
                s.held,
            )
            &&& gives(
                s,
                mouse_report((m + 32 + button) as u16, c, r, false),
                at(
                    match s.held {
                        Some(b) => MouseEventKind::Drag(b),
                        None => MouseEventKind::Moved,
                    },
                ),
                s.held,
            )
        }),
{
    let m = modifier_bits(shift, alt, control);
    let c = (column + 1) as u16;
    let r = (row + 1) as u16;
    lemma_mouse(s, m as u16, c, r, false);
    lemma_mouse(s, (m + 1) as u16, c, r, false);
    lemma_mouse(s, (m + 2) as u16, c, r, false);
    lemma_mouse(s, m as u16, c, r, true);
    lemma_mouse(s, (m + 1) as u16, c, r, true);
    lemma_mouse(s, (m + 2) as u16, c, r, true);
    lemma_mouse(s, (m + 64) as u16, c, r, false);
    lemma_mouse(s, (m + 65) as u16, c, r, false);
    lemma_mouse(s, (m + 66) as u16, c, r, false);
    lemma_mouse(s, (m + 67) as u16, c, r, false);
    lemma_mouse(s, (m + 32 + button) as u16, c, r, false);
}

// ---------------------------------------------------------------------------------------------
// Graphics responses
// ---------------------------------------------------------------------------------------------
/// A graphics response about an image, as the terminal writes it.
pub open spec fn response_bytes(id: u32, message: Seq<u8>) -> Seq<u8> {
    seq![27u8, 95u8, 71u8] + ascii(seq!['i', '='] + decimal(id as nat)) + seq![59u8] + message + seq![
        27u8,
        92u8,
    ]
}

proof fn lemma_not_found_before<T>(s: Seq<T>, p: Seq<T>, i: int, k: int)
    requires
        0 <= i <= k,
        k + p.len() <= s.len(),
        occurs_at(s, p, k),
        forall|j: int| i <= j < k ==> !#[trigger] occurs_at(s, p, j),
    ensures
        find_from(s, p, i) == Some(k),
    decreases k - i,
{
    if i < k {
        assert(!occurs_at(s, p, i));
        lemma_not_found_before(s, p, i + 1, k);
    }
}

/// A graphics response says which image it is about and what the terminal says of it: everything
/// between the first semicolon and the end.
pub proof fn law_response_is_read(id: u32, message: Seq<u8>)
    requires
        forall|i: int| 0 <= i < message.len() ==> #[trigger] message[i] != 27,
    ensures
        parsed_response(response_bytes(id, message)) == Some((Some(id), utf8_lossy(message))),
{
    let d = decimal(id as nat);
    let part = seq!['i', '='] + d;
    let data = response_bytes(id, message);
    let c = latin1(data);
    lemma_digits(id as nat);
    let open = seq!['\x1b', '_', 'G'];
    let close = seq!['\x1b', '\\'];
    assert(c.subrange(0, 3) =~= open) by {
        assert(data[0] == 27 && data[1] == 95 && data[2] == 71);
    }
    assert(find_from(c, open, 0) == Some(0int));
    let semi = 3 + part.len() as int;
    assert forall|i: int| 3 <= i < semi implies #[trigger] c[i] == part[i - 3] by {
        assert(data[i] == part[i - 3] as u8);
        if i >= 5 {
            assert(part[i - 3] == d[i - 5]);
        }
    }
    assert(data[semi] == 59);
    assert(c[semi] == ';');
    text::lemma_index_from(c, ';', 3);
    let k = index_from(c, ';', 3);
    if k < semi {
        assert(c[k] == part[k - 3]);
        if k >= 5 {
            assert(part[k - 3] == d[k - 5]);
        }
    }
    assert(k == semi);
    assert(c.subrange(3, semi) =~= part);
    assert forall|i: int| 0 <= i < part.len() implies #[trigger] part[i] != ',' by {
        if i >= 2 {
            assert(part[i] == d[i - 2]);
        }
    }
    lemma_split_one(part, ',');
    let parts = seq![part];
    text::lemma_decimal_reads_back(id as nat, u32::MAX as nat);
    assert(part.skip(2) =~= d);
    assert(part.subrange(0, 2) =~= seq!['i', '=']);
    assert(parts.last() == part);
    assert(image_id_of(parts) == Some(id));
    let end = semi + 1 + message.len();
    assert(data[end] == 27 && data[end + 1] == 92);
    assert(c.subrange(end, end + 2) =~= close);
    assert forall|j: int| semi + 1 <= j < end implies !#[trigger] occurs_at(c, close, j) by {
        assert(data[j] == message[j - semi - 1]);
        if occurs_at(c, close, j) {
            assert(c.subrange(j, j + 2)[0] == c[j]);
            assert(c[j] == '\x1b');
        }
    }
    lemma_not_found_before(c, close, semi + 1, end);
    assert(data.subrange(semi + 1, end) =~= message);
}

/// A response says that an image is gone where it names the error or says so in words, wherever in the
/// message; `OK` does not.
pub proof fn law_evictions_are_told(before: Seq<char>, after: Seq<char>)
    ensures
        says_evicted(before + "ENOENT"@ + after),
        says_evicted(before + "No such"@ + after),
        says_evicted(before + "not found"@ + after),
        !says_evicted("OK"@),
{
    let n = before.len() as int;
    let a = before + "ENOENT"@ + after;
    let b = before + "No such"@ + after;
    let c = before + "not found"@ + after;
    assert(a.subrange(n, n + "ENOENT"@.len()) =~= "ENOENT"@);
    assert(b.subrange(n, n + "No such"@.len()) =~= "No such"@);
    assert(c.subrange(n, n + "not found"@.len()) =~= "not found"@);
    assert(occurs_at(a, "ENOENT"@, n));
    assert(occurs_at(b, "No such"@, n));
    assert(occurs_at(c, "not found"@, n));
    reveal_strlit("OK");
    reveal_strlit("ENOENT");
    reveal_strlit("No such");
    reveal_strlit("not found");
}

/// A graphics response that arrives is queued as one, with its image and its message, and makes no event; the
/// input behind it is read as if it had come alone.
pub proof fn law_response_is_queued(s: InputView, id: u32, message: Seq<u8>, rest: Seq<u8>)
    requires
        forall|i: int| 0 <= i < message.len() ==> #[trigger] message[i] != 27,
        s.bytes.len() == 0,
    ensures
        received(s, response_bytes(id, message) + rest) == processed(
            InputView {
                bytes: rest,
                waited: false,
                responses: s.responses.push((Some(id), utf8_lossy(message))),
                ..s
            },
        ),
        received(s, response_bytes(id, message)).responses == s.responses.push(
            (Some(id), utf8_lossy(message)),
        ),
        received(s, response_bytes(id, message)).events == s.events,
        received(s, response_bytes(id, message)).bytes.len() == 0,
{
    let raw = response_bytes(id, message);
    let digits = ascii(seq!['i', '='] + decimal(id as nat));
    law_response_is_read(id, message);
    lemma_digits(id as nat);
    assert(raw[0] == 27 && raw[1] == 95 && raw[2] == 71);
    let end = raw.len() - 2;
    assert(raw[end] == 27 && raw[end + 1] == 92);
    assert forall|i: int| 0 <= i < end implies !(#[trigger] raw[i] == 27 && raw[i + 1] == 92) by {
        if i > 2 && i < 3 + digits.len() {
            assert(raw[i] == digits[i - 3]);
        } else if i > 3 + digits.len() {
            assert(raw[i] == message[i - 4 - digits.len()]);
        }
    }
    lemma_ends_at(raw, 0, end);
    let start = InputView { bytes: raw + rest, waited: false, ..s };
    assert(s.bytes + (raw + rest) =~= raw + rest);
    law_response_is_told_apart(start, raw, rest);
    let alone = InputView { bytes: raw + Seq::<u8>::empty(), waited: false, ..s };
    assert(raw + Seq::<u8>::empty() =~= raw);
    assert(s.bytes + raw =~= raw);
    law_response_is_told_apart(alone, raw, Seq::empty());
}

proof fn lemma_ends_at(raw: Seq<u8>, i: int, end: int)
    requires
        0 <= i <= end,
        end + 2 == raw.len(),
        raw[end] == 27 && raw[end + 1] == 92,
        forall|k: int| i <= k < end ==> !(#[trigger] raw[k] == 27 && raw[k + 1] == 92),
    ensures
        terminator(raw, i) == end,
    decreases end - i,
{
    if i < end {
        assert(!(raw[i] == 27 && raw[i + 1] == 92));
        lemma_ends_at(raw, i + 1, end);
    }
}

} // verus!
