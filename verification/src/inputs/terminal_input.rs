//! Terminal input: key and mouse events told apart from Kitty graphics protocol responses.
//!
//! Both arrive as one stream of bytes. A response starts with `ESC _ G` and ends with `ESC \`;
//! everything else is parsed as keyboard and mouse input.
use std::collections::VecDeque;
use vstd::prelude::*;
use vstd::string::*;
use vstd::utf8::{decode_utf8, valid_utf8};

use crate::inputs::event::{
    Event, KeyCode, KeyEvent, KeyEventKind, KeyModifiers, MouseButton, MouseEvent, MouseEventKind,
};
use crate::text;
use crate::text::{
    begins, find_from, index_from, latin1, lossy_text, occurs, parsed_uint, split, utf8_lossy, utf8_text, views,
};

verus! {

// ---------------------------------------------------------------------------------------------
// Kitty graphics responses
// ---------------------------------------------------------------------------------------------
/// A response of the Kitty graphics protocol.
#[derive(Debug, Clone)]
pub struct KittyResponse {
    pub image_id: Option<u32>,
    pub message: String,
}

impl View for KittyResponse {
    type V = (Option<u32>, Seq<char>);

    open spec fn view(&self) -> (Option<u32>, Seq<char>) {
        (self.image_id, self.message@)
    }
}

/// Whether a response message says that the image is no longer there.
pub open spec fn says_evicted(message: Seq<char>) -> bool {
    occurs(message, "ENOENT"@) || occurs(message, "No such"@) || occurs(message, "not found"@)
}

/// The image number among the parameters of a response: what the last `i=` parameter gives.
pub open spec fn image_id_of(parts: Seq<Seq<char>>) -> Option<u32>
    decreases parts.len(),
{
    if parts.len() == 0 {
        None
    } else if begins(parts.last(), seq!['i', '=']) {
        match parsed_uint(parts.last().skip(2), u32::MAX as nat) {
            Some(n) => Some(n as u32),
            None => None,
        }
    } else {
        image_id_of(parts.drop_last())
    }
}

/// The response that `data` holds: `ESC _ G`, parameters, a semicolon, the message, `ESC \`.
pub open spec fn parsed_response(data: Seq<u8>) -> Option<(Option<u32>, Seq<char>)> {
    let c = latin1(data);
    if data.len() < 6 {
        None
    } else {
        match find_from(c, seq!['\x1b', '_', 'G'], 0) {
            None => None,
            Some(start) => {
                let semi = index_from(c, ';', start + 3);
                if semi >= c.len() {
                    None
                } else {
                    match find_from(c, seq!['\x1b', '\\'], semi + 1) {
                        None => None,
                        Some(end) => Some(
                            (
                                image_id_of(split(c.subrange(start + 3, semi), ',')),
                                utf8_lossy(data.subrange(semi + 1, end)),
                            ),
                        ),
                    }
                }
            },
        }
    }
}

impl KittyResponse {
    /// Whether the response says that an image was evicted.
    pub fn is_evicted(&self) -> (r: bool)
        ensures
            r == says_evicted(self@.1),
    {
        text::contains(self.message.as_str(), "ENOENT") || text::contains(
            self.message.as_str(),
            "No such",
        ) || text::contains(self.message.as_str(), "not found")
    }

    /// Whether the response is `OK`.
    pub fn is_ok(&self) -> (r: bool)
        ensures
            r == (self@.1 == "OK"@),
    {
        text::same(self.message.as_str(), "OK")
    }

    /// Whether the response reports an error: anything but `OK`.
    pub fn is_error(&self) -> (r: bool)
        ensures
            r == (self@.1 != "OK"@),
    {
        !self.is_ok()
    }

    /// Parses a response from raw bytes.
    pub fn parse(data: &[u8]) -> (r: Option<KittyResponse>)
        ensures
            match r {
                Some(k) => parsed_response(data@) == Some(k@),
                None => parsed_response(data@) is None,
            },
    {
        if data.len() < 6 {
            return None;
        }
        let c = text::latin1_chars(data);
        let open: Vec<char> = vec!['\x1b', '_', 'G'];
        assert(open@ =~= seq!['\x1b', '_', 'G']);
        let start: usize = match text::find(&c, &open, 0) {
            Some(k) => k,
            None => {
                return None;
            },
        };
        let semi: usize = text::index_of(&c, ';', start + 3);
        if semi == c.len() {
            return None;
        }
        let close: Vec<char> = vec!['\x1b', '\\'];
        assert(close@ =~= seq!['\x1b', '\\']);
        let end: usize = match text::find(&c, &close, semi + 1) {
            Some(k) => k,
            None => {
                return None;
            },
        };
        let message = lossy_text(&data[semi + 1..end]);
        let params = text::slice(&c, start + 3, semi);
        let parts = text::split_chars(&params, ',');
        let image_id = last_image_id(&parts);
        Some(KittyResponse { image_id, message })
    }
}

/// The image number that the last `i=` parameter gives.
fn last_image_id(parts: &Vec<Vec<char>>) -> (r: Option<u32>)
    ensures
        r == image_id_of(views(parts@)),
{
    let mut i: usize = parts.len();
    let prefix: Vec<char> = vec!['i', '='];
    assert(prefix@ =~= seq!['i', '=']);
    assert(views(parts@).take(i as int) =~= views(parts@));
    while i > 0
        invariant
            i <= parts@.len(),
            prefix@ == seq!['i', '='],
            image_id_of(views(parts@)) == image_id_of(views(parts@).take(i as int)),
        decreases i,
    {
        let part = &parts[i - 1];
        let ghost seen = views(parts@).take(i as int);
        assert(seen.last() == part@);
        if text::stands_at(part, &prefix, 0) {
            let value = text::slice(part, 2, part.len());
            assert(value@ =~= part@.skip(2));
            return match text::parse_uint(&value, u32::MAX as u64) {
                Some(n) => Some(n as u32),
                None => None,
            };
        }
        assert(seen.drop_last() =~= views(parts@).take(i - 1));
        i -= 1;
    }
    None
}

// ---------------------------------------------------------------------------------------------
// One step of the input parser
// ---------------------------------------------------------------------------------------------
/// What the front of the input amounts to.
pub enum StepView {
    /// An event, the bytes that it takes, and the mouse button held after it.
    Event { used: int, event: Event, held: Option<MouseButton> },
    /// A graphics response and the bytes that it takes; nothing where it cannot be read.
    Response { used: int, response: Option<(Option<u32>, Seq<char>)> },
    /// Nothing to deliver before more bytes arrive; the bytes named are dropped.
    Stop { used: int },
}

/// What the front of the input amounts to.
pub enum InputStep {
    Event { used: usize, event: Event, held: Option<MouseButton> },
    Response { used: usize, response: Option<KittyResponse> },
    Stop { used: usize },
}

impl View for InputStep {
    type V = StepView;

    open spec fn view(&self) -> StepView {
        match *self {
            InputStep::Event { used, event, held } => StepView::Event {
                used: used as int,
                event,
                held,
            },
            InputStep::Response { used, response } => StepView::Response {
                used: used as int,
                response: match response {
                    Some(k) => Some(k@),
                    None => None,
                },
            },
            InputStep::Stop { used } => StepView::Stop { used: used as int },
        }
    }
}

/// A key press.
pub open spec fn press(code: KeyCode, modifiers: KeyModifiers) -> Event {
    Event::Key(KeyEvent { code, modifiers, kind: KeyEventKind::Press })
}

/// A key press.
fn key_event(code: KeyCode, modifiers: KeyModifiers) -> (r: Event)
    ensures
        r == press(code, modifiers),
{
    Event::Key(KeyEvent { code, modifiers, kind: KeyEventKind::Press })
}

/// The modifiers that a modifier number names: one more than the sum of 1 for Shift, 2 for Alt and
/// 4 for Control. A text that is no such number names none.
pub open spec fn modifiers_of(s: Seq<char>) -> KeyModifiers {
    let n: int = match parsed_uint(s, 255) {
        Some(v) => v as int,
        None => 1,
    };
    let m: int = if n == 0 {
        0
    } else {
        n - 1
    };
    KeyModifiers { shift: m % 2 == 1, alt: (m / 2) % 2 == 1, control: (m / 4) % 2 == 1 }
}

/// The modifiers that a modifier number names.
fn modifiers_from(s: &[char]) -> (r: KeyModifiers)
    ensures
        r == modifiers_of(s@),
{
    let n: u64 = match text::parse_uint(s, 255) {
        Some(v) => v,
        None => 1,
    };
    let m: u64 = if n == 0 {
        0
    } else {
        n - 1
    };
    KeyModifiers { shift: m % 2 == 1, alt: (m / 2) % 2 == 1, control: (m / 4) % 2 == 1 }
}

/// Parses a modifier number (1 is none, 2 Shift, 3 Alt, 5 Control, and so on).
pub fn parse_modifier_num(s: &str) -> (r: KeyModifiers)
    ensures
        r == modifiers_of(s@),
{
    let cs = text::chars_of(s);
    modifiers_from(&cs)
}

/// The modifiers in the parameters of a control sequence: those of what follows the first semicolon.
pub open spec fn modifiers_in(params: Seq<char>) -> KeyModifiers {
    let k = index_from(params, ';', 0);
    if k >= params.len() {
        KeyModifiers::none()
    } else {
        modifiers_of(params.skip(k + 1))
    }
}

/// The modifiers in the parameters of a control sequence.
fn parse_modifiers(params: &[char]) -> (r: KeyModifiers)
    ensures
        r == modifiers_in(params@),
{
    let k: usize = text::index_of(params, ';', 0);
    if k == params.len() {
        return KeyModifiers::empty();
    }
    let rest = text::slice(params, k + 1, params.len());
    assert(rest@ =~= params@.skip(k + 1));
    modifiers_from(&rest)
}

/// The modifiers in an SGR mouse button code: bit 2 is Shift, bit 3 Alt, bit 4 Control.
pub open spec fn mouse_modifiers(cb: int) -> KeyModifiers {
    KeyModifiers {
        shift: (cb / 4) % 2 == 1,
        alt: (cb / 8) % 2 == 1,
        control: (cb / 16) % 2 == 1,
    }
}

/// The modifiers in an SGR mouse button code.
pub fn parse_mouse_modifiers(cb: u16) -> (r: KeyModifiers)
    ensures
        r == mouse_modifiers(cb as int),
{
    KeyModifiers {
        shift: (cb / 4) % 2 == 1,
        alt: (cb / 8) % 2 == 1,
        control: (cb / 16) % 2 == 1,
    }
}

/// The key that a number before a tilde names.
pub open spec fn tilde_key(n: int) -> KeyCode {
    if n == 1 {
        KeyCode::Home
    } else if n == 2 {
        KeyCode::Insert
    } else if n == 3 {
        KeyCode::Delete
    } else if n == 4 {
        KeyCode::End
    } else if n == 5 {
        KeyCode::PageUp
    } else if n == 6 {
        KeyCode::PageDown
    } else if 11 <= n <= 15 {
        KeyCode::F((n - 10) as u8)
    } else if 17 <= n <= 21 {
        KeyCode::F((n - 11) as u8)
    } else if 23 <= n <= 24 {
        KeyCode::F((n - 12) as u8)
    } else {
        KeyCode::Null
    }
}

/// The number that the first parameter gives, 0 where it gives none up to `max`.
pub open spec fn first_number(parts: Seq<Seq<char>>, max: nat) -> int {
    match parsed_uint(parts[0], max) {
        Some(n) => n as int,
        None => 0,
    }
}

/// The modifiers that the second parameter gives, none where there is no second.
pub open spec fn second_modifiers(parts: Seq<Seq<char>>) -> KeyModifiers {
    if parts.len() > 1 {
        modifiers_of(parts[1])
    } else {
        KeyModifiers::none()
    }
}

fn first_two(parts: &Vec<Vec<char>>, max: u64) -> (r: (u64, KeyModifiers))
    requires
        parts@.len() > 0,
    ensures
        r.0 == first_number(views(parts@), max as nat),
        r.0 <= max,
        r.1 == second_modifiers(views(parts@)),
{
    let n: u64 = match text::parse_uint(&parts[0], max) {
        Some(v) => v,
        None => 0,
    };
    let modifiers = if parts.len() > 1 {
        modifiers_from(&parts[1])
    } else {
        KeyModifiers::empty()
    };
    (n, modifiers)
}

/// The key press that a sequence ending in a tilde stands for.
fn parse_tilde_sequence(params: &[char]) -> (r: Event)
    ensures
        r == press(
            tilde_key(first_number(split(params@, ';'), 255)),
            second_modifiers(split(params@, ';')),
        ),
{
    let parts = text::split_chars(params, ';');
    let (n, modifiers) = first_two(&parts, 255);
    let code = match n {
        1 => KeyCode::Home,
        2 => KeyCode::Insert,
        3 => KeyCode::Delete,
        4 => KeyCode::End,
        5 => KeyCode::PageUp,
        6 => KeyCode::PageDown,
        11 => KeyCode::F(1),
        12 => KeyCode::F(2),
        13 => KeyCode::F(3),
        14 => KeyCode::F(4),
        15 => KeyCode::F(5),
        17 => KeyCode::F(6),
        18 => KeyCode::F(7),
        19 => KeyCode::F(8),
        20 => KeyCode::F(9),
        21 => KeyCode::F(10),
        23 => KeyCode::F(11),
        24 => KeyCode::F(12),
        _ => KeyCode::Null,
    };
    key_event(code, modifiers)
}

/// The key that a number of the Kitty keyboard protocol names.
pub open spec fn kitty_key(n: int) -> KeyCode {
    if n == 27 {
        KeyCode::Esc
    } else if n == 13 {
        KeyCode::Enter
    } else if n == 9 {
        KeyCode::Tab
    } else if n == 127 {
        KeyCode::Backspace
    } else if n < 128 {
        KeyCode::Char(n as char)
    } else {
        KeyCode::Null
    }
}

/// The key press that a sequence of the Kitty keyboard protocol stands for.
fn parse_kitty_keyboard(params: &[char]) -> (r: Event)
    ensures
        r == press(
            kitty_key(first_number(split(params@, ';'), u32::MAX as nat)),
            second_modifiers(split(params@, ';')),
        ),
{
    let parts = text::split_chars(params, ';');
    let (n, modifiers) = first_two(&parts, u32::MAX as u64);
    let code = if n == 27 {
        KeyCode::Esc
    } else if n == 13 {
        KeyCode::Enter
    } else if n == 9 {
        KeyCode::Tab
    } else if n == 127 {
        KeyCode::Backspace
    } else if n < 128 {
        KeyCode::Char((n as u8) as char)
    } else {
        KeyCode::Null
    };
    key_event(code, modifiers)
}

/// Whether a byte ends a control sequence: a letter or a tilde.
pub open spec fn ends_sequence(b: u8) -> bool {
    65 <= b <= 90 || 97 <= b <= 122 || b == 126
}

/// The first index from `i` on whose byte ends a control sequence, or the length.
pub open spec fn sequence_end(buf: Seq<u8>, i: int) -> int
    decreases buf.len() - i,
{
    if i >= buf.len() {
        buf.len() as int
    } else if ends_sequence(buf[i]) {
        i
    } else {
        sequence_end(buf, i + 1)
    }
}

/// The first index from `i` on that holds `M` or `m`, or the length.
pub open spec fn mouse_end(buf: Seq<u8>, i: int) -> int
    decreases buf.len() - i,
{
    if i >= buf.len() {
        buf.len() as int
    } else if buf[i] == 77 || buf[i] == 109 {
        i
    } else {
        mouse_end(buf, i + 1)
    }
}

/// The first index from `i` on at which `ESC \` stands, or the length.
pub open spec fn terminator(buf: Seq<u8>, i: int) -> int
    decreases buf.len() - i,
{
    if i + 1 >= buf.len() {
        buf.len() as int
    } else if buf[i] == 27 && buf[i + 1] == 92 {
        i
    } else {
        terminator(buf, i + 1)
    }
}

/// The event that a control sequence stands for, by its last byte and its parameters.
pub open spec fn csi_event(last: u8, params: Seq<char>) -> Option<Event> {
    if last == 65 {
        Some(press(KeyCode::Up, modifiers_in(params)))
    } else if last == 66 {
        Some(press(KeyCode::Down, modifiers_in(params)))
    } else if last == 67 {
        Some(press(KeyCode::Right, modifiers_in(params)))
    } else if last == 68 {
        Some(press(KeyCode::Left, modifiers_in(params)))
    } else if last == 72 {
        Some(press(KeyCode::Home, modifiers_in(params)))
    } else if last == 70 {
        Some(press(KeyCode::End, modifiers_in(params)))
    } else if last == 90 {
        Some(press(KeyCode::BackTab, KeyModifiers { shift: true, alt: false, control: false }))
    } else if last == 126 {
        let parts = split(params, ';');
        Some(press(tilde_key(first_number(parts, 255)), second_modifiers(parts)))
    } else if last == 117 {
        let parts = split(params, ';');
        Some(press(kitty_key(first_number(parts, u32::MAX as nat)), second_modifiers(parts)))
    } else {
        None
    }
}

/// What a control sequence (`ESC [`) at the front of the input amounts to.
pub open spec fn csi_step(buf: Seq<u8>, held: Option<MouseButton>) -> StepView {
    if buf.len() < 3 {
        StepView::Stop { used: 0 }
    } else if buf[2] == 60 {
        mouse_step(buf, held)
    } else {
        let end = sequence_end(buf, 2);
        if end >= buf.len() {
            StepView::Stop { used: 0 }
        } else {
            match csi_event(buf[end], latin1(buf.subrange(2, end))) {
                Some(event) => StepView::Event { used: end + 1, event, held },
                None => StepView::Stop { used: end + 1 },
            }
        }
    }
}

fn try_parse_csi_sequence(buf: &[u8], held: Option<MouseButton>) -> (r: InputStep)
    ensures
        r@ == csi_step(buf@, held),
{
    if buf.len() < 3 {
        return InputStep::Stop { used: 0 };
    }
    if buf[2] == 60 {
        return try_parse_mouse_sgr(buf, held);
    }
    let mut end: usize = 2;
    while end < buf.len() && !((65 <= buf[end] && buf[end] <= 90) || (97 <= buf[end] && buf[end]
        <= 122) || buf[end] == 126)
        invariant
            2 <= end <= buf@.len(),
            sequence_end(buf@, 2) == sequence_end(buf@, end as int),
        decreases buf@.len() - end,
    {
        end += 1;
    }
    if end >= buf.len() {
        return InputStep::Stop { used: 0 };
    }
    let params = text::latin1_chars(&buf[2..end]);
    let event = match buf[end] {
        65 => key_event(KeyCode::Up, parse_modifiers(&params)),
        66 => key_event(KeyCode::Down, parse_modifiers(&params)),
        67 => key_event(KeyCode::Right, parse_modifiers(&params)),
        68 => key_event(KeyCode::Left, parse_modifiers(&params)),
        72 => key_event(KeyCode::Home, parse_modifiers(&params)),
        70 => key_event(KeyCode::End, parse_modifiers(&params)),
        90 => key_event(KeyCode::BackTab, KeyModifiers::shift()),
        126 => parse_tilde_sequence(&params),
        117 => parse_kitty_keyboard(&params),
        _ => {
            return InputStep::Stop { used: end + 1 };
        },
    };
    InputStep::Event { used: end + 1, event, held }
}

/// The key that the third byte of an SS3 sequence names.
pub open spec fn ss3_key(b: u8) -> Option<KeyCode> {
    if b == 65 {
        Some(KeyCode::Up)
    } else if b == 66 {
        Some(KeyCode::Down)
    } else if b == 67 {
        Some(KeyCode::Right)
    } else if b == 68 {
        Some(KeyCode::Left)
    } else if b == 72 {
        Some(KeyCode::Home)
    } else if b == 70 {
        Some(KeyCode::End)
    } else if 80 <= b <= 83 {
        Some(KeyCode::F((b - 79) as u8))
    } else {
        None
    }
}

/// What an SS3 sequence (`ESC O`) at the front of the input amounts to.
pub open spec fn ss3_step(buf: Seq<u8>, held: Option<MouseButton>) -> StepView {
    if buf.len() < 3 {
        StepView::Stop { used: 0 }
    } else {
        match ss3_key(buf[2]) {
            Some(code) => StepView::Event {
                used: 3,
                event: press(code, KeyModifiers::none()),
                held,
            },
            None => StepView::Stop { used: 3 },
        }
    }
}

fn try_parse_ss3_sequence(buf: &[u8], held: Option<MouseButton>) -> (r: InputStep)
    ensures
        r@ == ss3_step(buf@, held),
{
    if buf.len() < 3 {
        return InputStep::Stop { used: 0 };
    }
    let code = match buf[2] {
        65 => KeyCode::Up,
        66 => KeyCode::Down,
        67 => KeyCode::Right,
        68 => KeyCode::Left,
        72 => KeyCode::Home,
        70 => KeyCode::End,
        80 => KeyCode::F(1),
        81 => KeyCode::F(2),
        82 => KeyCode::F(3),
        83 => KeyCode::F(4),
        _ => {
            return InputStep::Stop { used: 3 };
        },
    };
    InputStep::Event { used: 3, event: key_event(code, KeyModifiers::empty()), held }
}

/// The button that an SGR button code names.
pub open spec fn mouse_button(cb: int) -> MouseButton {
    if (cb / 64) % 2 == 1 {
        MouseButton::Left
    } else if cb % 4 == 1 {
        MouseButton::Middle
    } else if cb % 4 == 2 {
        MouseButton::Right
    } else {
        MouseButton::Left
    }
}

/// What an SGR button code says the mouse did.
pub open spec fn mouse_kind(cb: int, release: bool, held: Option<MouseButton>) -> MouseEventKind {
    if (cb / 64) % 2 == 1 {
        if cb % 4 == 0 {
            MouseEventKind::ScrollUp
        } else if cb % 4 == 1 {
            MouseEventKind::ScrollDown
        } else if cb % 4 == 2 {
            MouseEventKind::ScrollLeft
        } else {
            MouseEventKind::ScrollRight
        }
    } else if (cb / 32) % 2 == 1 {
        match held {
            Some(button) => MouseEventKind::Drag(button),
            None => MouseEventKind::Moved,
        }
    } else if release {
        MouseEventKind::Up(mouse_button(cb))
    } else {
        MouseEventKind::Down(mouse_button(cb))
    }
}

/// The button held after an SGR mouse event.
pub open spec fn held_after(
    cb: int,
    release: bool,
    held: Option<MouseButton>,
) -> Option<MouseButton> {
    if (cb / 64) % 2 == 1 || (cb / 32) % 2 == 1 {
        held
    } else if release {
        None
    } else {
        Some(mouse_button(cb))
    }
}

/// One less, but not below zero: mouse reports count cells from one.
pub open spec fn cell(n: int) -> u16 {
    if n == 0 {
        0
    } else {
        (n - 1) as u16
    }
}

/// What an SGR mouse report (`ESC [ <`) at the front of the input amounts to.
pub open spec fn mouse_step(buf: Seq<u8>, held: Option<MouseButton>) -> StepView {
    let end = mouse_end(buf, 3);
    if end >= buf.len() {
        StepView::Stop { used: 0 }
    } else {
        let parts = split(latin1(buf.subrange(3, end)), ';');
        if parts.len() < 3 {
            StepView::Stop { used: end + 1 }
        } else {
            match (
                parsed_uint(parts[0], 65535),
                parsed_uint(parts[1], 65535),
                parsed_uint(parts[2], 65535),
            ) {
                (Some(cb), Some(cx), Some(cy)) => StepView::Event {
                    used: end + 1,
                    event: Event::Mouse(
                        MouseEvent {
                            kind: mouse_kind(cb as int, buf[end] == 109, held),
                            column: cell(cx as int),
                            row: cell(cy as int),
                            modifiers: mouse_modifiers(cb as int),
                        },
                    ),
                    held: held_after(cb as int, buf[end] == 109, held),
                },
                _ => StepView::Stop { used: end + 1 },
            }
        }
    }
}

fn try_parse_mouse_sgr(buf: &[u8], held: Option<MouseButton>) -> (r: InputStep)
    requires
        buf@.len() >= 3,
    ensures
        r@ == mouse_step(buf@, held),
{
    let mut end: usize = 3;
    while end < buf.len() && buf[end] != 77 && buf[end] != 109
        invariant
            3 <= end <= buf@.len(),
            mouse_end(buf@, 3) == mouse_end(buf@, end as int),
        decreases buf@.len() - end,
    {
        end += 1;
    }
    if end >= buf.len() {
        return InputStep::Stop { used: 0 };
    }
    let release = buf[end] == 109;
    let params = text::latin1_chars(&buf[3..end]);
    let parts = text::split_chars(&params, ';');
    if parts.len() < 3 {
        return InputStep::Stop { used: end + 1 };
    }
    let (cb, cx, cy): (u16, u16, u16) = match (
        text::parse_uint(&parts[0], 65535),
        text::parse_uint(&parts[1], 65535),
        text::parse_uint(&parts[2], 65535),
    ) {
        (Some(a), Some(b), Some(c)) => (a as u16, b as u16, c as u16),
        _ => {
            return InputStep::Stop { used: end + 1 };
        },
    };
    let button = if (cb / 64) % 2 == 1 {
        MouseButton::Left
    } else {
        match cb % 4 {
            1 => MouseButton::Middle,
            2 => MouseButton::Right,
            _ => MouseButton::Left,
        }
    };
    let mut held_now = held;
    let kind = if (cb / 64) % 2 == 1 {
        match cb % 4 {
            0 => MouseEventKind::ScrollUp,
            1 => MouseEventKind::ScrollDown,
            2 => MouseEventKind::ScrollLeft,
            _ => MouseEventKind::ScrollRight,
        }
    } else if (cb / 32) % 2 == 1 {
        match held {
            Some(b) => MouseEventKind::Drag(b),
            None => MouseEventKind::Moved,
        }
    } else if release {
        held_now = None;
        MouseEventKind::Up(button)
    } else {
        held_now = Some(button);
        MouseEventKind::Down(button)
    };
    let event = Event::Mouse(
        MouseEvent {
            kind,
            column: cx.saturating_sub(1),
            row: cy.saturating_sub(1),
            modifiers: parse_mouse_modifiers(cb),
        },
    );
    InputStep::Event { used: end + 1, event, held: held_now }
}

/// What an escape byte at the front of the input amounts to. A lone escape is the Esc key once a
/// read has brought nothing more, and an escape with nothing but an underscore behind it, which may
/// open a graphics response, is a key press with Alt only then.
pub open spec fn escape_step(buf: Seq<u8>, waited: bool, held: Option<MouseButton>) -> StepView {
    if buf.len() < 2 {
        if waited {
            StepView::Event { used: 1, event: press(KeyCode::Esc, KeyModifiers::none()), held }
        } else {
            StepView::Stop { used: 0 }
        }
    } else if buf.len() == 2 && buf[1] == 95 && !waited {
        StepView::Stop { used: 0 }
    } else if buf[1] == 91 {
        csi_step(buf, held)
    } else if buf[1] == 79 {
        ss3_step(buf, held)
    } else if buf[1] < 128 {
        StepView::Event {
            used: 2,
            event: press(
                KeyCode::Char(buf[1] as char),
                KeyModifiers { shift: false, alt: true, control: false },
            ),
            held,
        }
    } else {
        StepView::Event { used: 1, event: press(KeyCode::Esc, KeyModifiers::none()), held }
    }
}

fn try_parse_escape_sequence(buf: &[u8], waited: bool, held: Option<MouseButton>) -> (r: InputStep)
    requires
        buf@.len() > 0,
    ensures
        r@ == escape_step(buf@, waited, held),
{
    if buf.len() < 2 {
        if waited {
            return InputStep::Event {
                used: 1,
                event: key_event(KeyCode::Esc, KeyModifiers::empty()),
                held,
            };
        }
        return InputStep::Stop { used: 0 };
    }
    let second: u8 = buf[1];
    if buf.len() == 2 && second == 95 && !waited {
        return InputStep::Stop { used: 0 };
    }
    match second {
        91 => try_parse_csi_sequence(buf, held),
        79 => try_parse_ss3_sequence(buf, held),
        _ => if second < 128 {
            InputStep::Event {
                used: 2,
                event: key_event(KeyCode::Char(second as char), KeyModifiers::alt()),
                held,
            }
        } else {
            InputStep::Event {
                used: 1,
                event: key_event(KeyCode::Esc, KeyModifiers::empty()),
                held,
            }
        },
    }
}

/// The key press that a control byte stands for.
pub open spec fn control_key(b: u8) -> Event {
    let ctrl = KeyModifiers { shift: false, alt: false, control: true };
    if b == 0 {
        press(KeyCode::Char(' '), ctrl)
    } else if b == 8 || b == 127 {
        press(KeyCode::Backspace, KeyModifiers::none())
    } else if b == 9 {
        press(KeyCode::Tab, KeyModifiers::none())
    } else if b == 10 || b == 13 {
        press(KeyCode::Enter, KeyModifiers::none())
    } else if b == 27 {
        press(KeyCode::Esc, KeyModifiers::none())
    } else if 1 <= b <= 26 {
        press(KeyCode::Char((96 + b) as char), ctrl)
    } else {
        press(KeyCode::Null, KeyModifiers::none())
    }
}

/// The number of bytes that a UTF-8 character has by its first byte; 0 where none starts so.
pub open spec fn utf8_width(first: u8) -> int {
    if 0xc0 <= first <= 0xdf {
        2
    } else if 0xe0 <= first <= 0xef {
        3
    } else if 0xf0 <= first <= 0xf7 {
        4
    } else {
        0
    }
}

/// What a byte that is no escape at the front of the input amounts to.
pub open spec fn character_step(buf: Seq<u8>, held: Option<MouseButton>) -> StepView {
    let first = buf[0];
    if first < 32 || first == 127 {
        StepView::Event { used: 1, event: control_key(first), held }
    } else if first < 128 {
        StepView::Event {
            used: 1,
            event: press(KeyCode::Char(first as char), KeyModifiers::none()),
            held,
        }
    } else if utf8_width(first) == 0 {
        StepView::Stop { used: 1 }
    } else if buf.len() < utf8_width(first) {
        StepView::Stop { used: 0 }
    } else if valid_utf8(buf.take(utf8_width(first))) {
        StepView::Event {
            used: utf8_width(first),
            event: press(
                KeyCode::Char(decode_utf8(buf.take(utf8_width(first)))[0]),
                KeyModifiers::none(),
            ),
            held,
        }
    } else {
        StepView::Stop { used: utf8_width(first) }
    }
}

fn try_parse_character(buf: &[u8], held: Option<MouseButton>) -> (r: InputStep)
    requires
        buf@.len() > 0,
    ensures
        r@ == character_step(buf@, held),
{
    let first: u8 = buf[0];
    if first < 32 || first == 127 {
        let (code, modifiers) = if first == 0 {
            (KeyCode::Char(' '), KeyModifiers::control())
        } else if first == 8 || first == 127 {
            (KeyCode::Backspace, KeyModifiers::empty())
        } else if first == 9 {
            (KeyCode::Tab, KeyModifiers::empty())
        } else if first == 10 || first == 13 {
            (KeyCode::Enter, KeyModifiers::empty())
        } else if first == 27 {
            (KeyCode::Esc, KeyModifiers::empty())
        } else if first <= 26 {
            (KeyCode::Char((97 + (first - 1)) as char), KeyModifiers::control())
        } else {
            (KeyCode::Null, KeyModifiers::empty())
        };
        return InputStep::Event { used: 1, event: key_event(code, modifiers), held };
    }
    if first < 128 {
        return InputStep::Event {
            used: 1,
            event: key_event(KeyCode::Char(first as char), KeyModifiers::empty()),
            held,
        };
    }
    let width: usize = if 0xc0 <= first && first <= 0xdf {
        2
    } else if 0xe0 <= first && first <= 0xef {
        3
    } else if 0xf0 <= first && first <= 0xf7 {
        4
    } else {
        return InputStep::Stop { used: 1 };
    };
    if buf.len() < width {
        return InputStep::Stop { used: 0 };
    }
    let bytes = &buf[0..width];
    assert(bytes@ =~= buf@.take(width as int));
    match utf8_text(bytes) {
        Some(s) => {
            let cs = text::chars_of(s.as_str());
            assert(cs@.len() > 0);
            InputStep::Event {
                used: width,
                event: key_event(KeyCode::Char(cs[0]), KeyModifiers::empty()),
                held,
            }
        },
        None => InputStep::Stop { used: width },
    }
}

/// Whether the input starts with the opening of a graphics response, `ESC _ G`.
pub open spec fn opens_response(buf: Seq<u8>) -> bool {
    buf.len() >= 3 && buf[0] == 27 && buf[1] == 95 && buf[2] == 71
}

/// What the front of the input amounts to.
pub open spec fn step(buf: Seq<u8>, waited: bool, held: Option<MouseButton>) -> StepView {
    if opens_response(buf) {
        let end = terminator(buf, 0);
        if end >= buf.len() {
            StepView::Stop { used: 0 }
        } else {
            StepView::Response { used: end + 2, response: parsed_response(buf.take(end + 2)) }
        }
    } else if buf[0] == 27 {
        escape_step(buf, waited, held)
    } else {
        character_step(buf, held)
    }
}

/// The number of bytes at the front that make up a complete graphics response.
fn response_length(buf: &[u8]) -> (r: Option<usize>)
    ensures
        match r {
            Some(n) => n == terminator(buf@, 0) + 2 && n <= buf@.len(),
            None => terminator(buf@, 0) >= buf@.len(),
        },
{
    let mut i: usize = 0;
    while i < buf.len() && buf.len() - i > 1
        invariant
            i <= buf@.len(),
            terminator(buf@, 0) == terminator(buf@, i as int),
        decreases buf@.len() - i,
    {
        if buf[i] == 0x1b && buf[i + 1] == 92 {
            return Some(i + 2);
        }
        i += 1;
    }
    None
}

/// Takes one step at the front of the input.
fn next_step(buf: &[u8], waited: bool, held: Option<MouseButton>) -> (r: InputStep)
    requires
        buf@.len() > 0,
    ensures
        r@ == step(buf@, waited, held),
{
    if buf.len() >= 3 && buf[0] == 0x1b && buf[1] == 95 && buf[2] == 71 {
        return match response_length(buf) {
            Some(n) => {
                let raw = &buf[0..n];
                assert(raw@ =~= buf@.take(n as int));
                InputStep::Response { used: n, response: KittyResponse::parse(raw) }
            },
            None => InputStep::Stop { used: 0 },
        };
    }
    if buf[0] == 0x1b {
        return try_parse_escape_sequence(buf, waited, held);
    }
    try_parse_character(buf, held)
}

/// The bytes that a step takes.
pub open spec fn used_by(s: StepView) -> int {
    match s {
        StepView::Event { used, .. } => used,
        StepView::Response { used, .. } => used,
        StepView::Stop { used } => used,
    }
}

proof fn lemma_ends_in_range(buf: Seq<u8>, i: int)
    requires
        0 <= i,
    ensures
        i <= buf.len() ==> i <= sequence_end(buf, i) <= buf.len(),
        i <= buf.len() ==> i <= mouse_end(buf, i) <= buf.len(),
        i <= buf.len() ==> i <= terminator(buf, i) <= buf.len(),
        terminator(buf, i) < buf.len() ==> terminator(buf, i) + 2 <= buf.len(),
    decreases buf.len() - i,
{
    if i < buf.len() {
        lemma_ends_in_range(buf, i + 1);
    }
}

/// A step takes bytes that are there, and a step that delivers something takes at least one.
pub proof fn lemma_step_advances(buf: Seq<u8>, waited: bool, held: Option<MouseButton>)
    requires
        buf.len() > 0,
    ensures
        0 <= used_by(step(buf, waited, held)) <= buf.len(),
        !(step(buf, waited, held) is Stop) ==> used_by(step(buf, waited, held)) > 0,
{
    lemma_ends_in_range(buf, 0);
    lemma_ends_in_range(buf, 2);
    lemma_ends_in_range(buf, 3);
}

// ---------------------------------------------------------------------------------------------
// The input buffer
// ---------------------------------------------------------------------------------------------
/// The state of the terminal input.
pub struct InputView {
    /// The bytes not yet parsed.
    pub bytes: Seq<u8>,
    /// The events ready to be read, the oldest first.
    pub events: Seq<Event>,
    /// The graphics responses ready to be taken, the oldest first.
    pub responses: Seq<(Option<u32>, Seq<char>)>,
    /// The mouse button held down.
    pub held: Option<MouseButton>,
    /// Whether a read brought nothing while bytes were left to parse.
    pub waited: bool,
}

/// The state after everything at the front of the input that can be parsed has been.
pub open spec fn processed(s: InputView) -> InputView
    decreases s.bytes.len(),
{
    if s.bytes.len() == 0 {
        s
    } else {
        proof {
            lemma_step_advances(s.bytes, s.waited, s.held);
        }
        match step(s.bytes, s.waited, s.held) {
            StepView::Event { used, event, held } => processed(
                InputView {
                    bytes: s.bytes.skip(used),
                    events: s.events.push(event),
                    held,
                    waited: false,
                    ..s
                },
            ),
            StepView::Response { used, response } => processed(
                InputView {
                    bytes: s.bytes.skip(used),
                    responses: match response {
                        Some(k) => s.responses.push(k),
                        None => s.responses,
                    },
                    ..s
                },
            ),
            StepView::Stop { used } => InputView { bytes: s.bytes.skip(used), ..s },
        }
    }
}

/// The state after `data` has been read from the terminal.
pub open spec fn received(s: InputView, data: Seq<u8>) -> InputView {
    processed(
        InputView {
            bytes: s.bytes + data,
            waited: data.len() == 0 && s.bytes.len() > 0,
            ..s
        },
    )
}

/// That no event waits to be read.
#[derive(Debug, Clone, Copy, PartialEq, Eq, Structural)]
pub enum ReadError {
    WouldBlock,
}

/// The input of the terminal, with graphics responses told apart from events.
pub struct TerminalInput {
    buffer: Vec<u8>,
    event_queue: VecDeque<Event>,
    kitty_queue: VecDeque<KittyResponse>,
    mouse_button_held: Option<MouseButton>,
    read_attempted_for_incomplete: bool,
}

impl View for TerminalInput {
    type V = InputView;

    closed spec fn view(&self) -> InputView {
        InputView {
            bytes: self.buffer@,
            events: self.event_queue@,
            responses: self.kitty_queue@.map_values(|k: KittyResponse| k@),
            held: self.mouse_button_held,
            waited: self.read_attempted_for_incomplete,
        }
    }
}

/// The state of a fresh terminal input.
pub open spec fn no_input() -> InputView {
    InputView {
        bytes: Seq::empty(),
        events: Seq::empty(),
        responses: Seq::empty(),
        held: None,
        waited: false,
    }
}

impl TerminalInput {
    /// Input of which nothing has been read yet.
    pub fn new() -> (r: TerminalInput)
        ensures
            r@ == no_input(),
    {
        let r = TerminalInput {
            buffer: Vec::new(),
            event_queue: VecDeque::new(),
            kitty_queue: VecDeque::new(),
            mouse_button_held: None,
            read_attempted_for_incomplete: false,
        };
        assert(r@.bytes =~= Seq::<u8>::empty());
        assert(r@.responses =~= Seq::empty());
        r
    }

    /// Whether bytes are to be read from the terminal before the next event can be given: none waits.
    pub fn wants_bytes(&self) -> (r: bool)
        ensures
            r == (self@.events.len() == 0),
    {
        self.event_queue.len() == 0
    }

    /// Takes in the bytes that a read brought (none where it timed out) unless an event waits already,
    /// and tells whether an event waits now.
    pub fn poll(&mut self, data: &[u8]) -> (r: bool)
        requires
            old(self)@.events.len() > 0 ==> data@.len() == 0,
        ensures
            final(self)@ == (if old(self)@.events.len() > 0 {
                old(self)@
            } else {
                received(old(self)@, data@)
            }),
            r == (final(self)@.events.len() > 0),
    {
        if self.event_queue.len() > 0 {
            return true;
        }
        self.receive(data);
        self.event_queue.len() > 0
    }

    /// The next event, after taking in the bytes that a read brought where none waited.
    pub fn read_event(&mut self, data: &[u8]) -> (r: Result<Event, ReadError>)
        requires
            old(self)@.events.len() > 0 ==> data@.len() == 0,
        ensures
            ({
                let ready = if old(self)@.events.len() > 0 {
                    old(self)@
                } else {
                    received(old(self)@, data@)
                };
                if ready.events.len() > 0 {
                    &&& r == Ok::<Event, ReadError>(ready.events[0])
                    &&& final(self)@ == (InputView { events: ready.events.skip(1), ..ready })
                } else {
                    &&& r == Err::<Event, ReadError>(ReadError::WouldBlock)
                    &&& final(self)@ == ready
                }
            }),
    {
        if self.event_queue.len() == 0 {
            self.receive(data);
        }
        let ghost ready = self@;
        match self.event_queue.pop_front() {
            Some(event) => {
                assert(self@.events =~= ready.events.skip(1));
                assert(self@ == (InputView { events: ready.events.skip(1), ..ready }));
                Ok(event)
            },
            None => Err(ReadError::WouldBlock),
        }
    }

    /// Takes the graphics responses that wait.
    pub fn take_kitty_responses(&mut self) -> (r: Vec<KittyResponse>)
        ensures
            r@.map_values(|k: KittyResponse| k@) == old(self)@.responses,
            final(self)@ == (InputView { responses: Seq::empty(), ..old(self)@ }),
    {
        let mut r: Vec<KittyResponse> = Vec::new();
        let ghost all = self@.responses;
        let ghost start = *self;
        let ghost f = |k: KittyResponse| k@;
        while self.kitty_queue.len() > 0
            invariant
                r@.map_values(f) + self@.responses == all,
                self@ == (InputView { responses: self@.responses, ..start@ }),
                f == (|k: KittyResponse| k@),
            decreases self.kitty_queue@.len(),
        {
            let ghost before = self.kitty_queue@;
            match self.kitty_queue.pop_front() {
                Some(k) => {
                    proof {
                        assert(before =~= seq![k] + self.kitty_queue@);
                        assert(r@.push(k).map_values(f) =~= r@.map_values(f).push(k@));
                        assert(before.map_values(f) =~= seq![k@] + self.kitty_queue@.map_values(f));
                        assert(r@.map_values(f).push(k@) + self.kitty_queue@.map_values(f)
                            =~= r@.map_values(f) + before.map_values(f));
                    }
                    r.push(k);
                },
                None => {},
            }
        }
        assert(self@.responses =~= Seq::empty());
        assert(r@.map_values(f) =~= all);
        r
    }

    /// Whether graphics responses wait.
    pub fn has_kitty_responses(&self) -> (r: bool)
        ensures
            r == (self@.responses.len() > 0),
    {
        self.kitty_queue.len() > 0
    }

    fn receive(&mut self, data: &[u8])
        ensures
            final(self)@ == received(old(self)@, data@),
    {
        let got_new_data = data.len() > 0;
        let ghost start = self@;
        let had_bytes = self.buffer.len() > 0;
        let mut i: usize = 0;
        while i < data.len()
            invariant
                i <= data@.len(),
                self@ == (InputView { bytes: start.bytes + data@.take(i as int), ..start }),
            decreases data@.len() - i,
        {
            self.buffer.push(data[i]);
            assert((start.bytes + data@.take(i as int)).push(data@[i as int]) =~= start.bytes
                + data@.take(i + 1));
            i += 1;
        }
        assert(data@.take(i as int) =~= data@);
        self.read_attempted_for_incomplete = !got_new_data && had_bytes;
        self.process_buffer();
    }

    fn process_buffer(&mut self)
        ensures
            final(self)@ == processed(old(self)@),
    {
        while self.buffer.len() > 0
            invariant
                processed(old(self)@) == processed(self@),
            decreases self.buffer@.len(),
        {
            let ghost now = self@;
            let next = next_step(
                &self.buffer,
                self.read_attempted_for_incomplete,
                self.mouse_button_held,
            );
            proof {
                lemma_step_advances(now.bytes, now.waited, now.held);
            }
            match next {
                InputStep::Event { used, event, held } => {
                    self.drop_front(used);
                    self.event_queue.push_back(event);
                    self.mouse_button_held = held;
                    self.read_attempted_for_incomplete = false;
                },
                InputStep::Response { used, response } => {
                    self.drop_front(used);
                    match response {
                        Some(k) => {
                            let ghost queue = self.kitty_queue@;
                            self.kitty_queue.push_back(k);
                            proof {
                                let f = |k: KittyResponse| k@;
                                assert(queue.push(k).map_values(f) =~= queue.map_values(f).push(k@));
                            }
                        },
                        None => {},
                    }
                },
                InputStep::Stop { used } => {
                    self.drop_front(used);
                    return ;
                },
            }
        }
    }

    /// Drops the first `n` bytes.
    fn drop_front(&mut self, n: usize)
        requires
            n <= old(self).buffer@.len(),
        ensures
            *final(self) == (TerminalInput { buffer: final(self).buffer, ..*old(self) }),
            final(self).buffer@ == old(self).buffer@.skip(n as int),
    {
        let rest = self.buffer.split_off(n);
        assert(rest@ =~= old(self).buffer@.skip(n as int));
        self.buffer = rest;
    }
}

impl Default for TerminalInput {
    fn default() -> (r: TerminalInput)
        ensures
            r@ == no_input(),
    {
        TerminalInput::new()
    }
}

/// An event source over the terminal input.
pub struct UnifiedEventSource {
    input: TerminalInput,
}

impl View for UnifiedEventSource {
    type V = InputView;

    closed spec fn view(&self) -> InputView {
        self.input@
    }
}

impl UnifiedEventSource {
    /// A source of which nothing has been read yet.
    pub fn new() -> (r: UnifiedEventSource)
        ensures
            r@ == no_input(),
    {
        UnifiedEventSource { input: TerminalInput::new() }
    }

    /// Whether bytes are to be read from the terminal before the next event can be given.
    pub fn wants_bytes(&self) -> (r: bool)
        ensures
            r == (self@.events.len() == 0),
    {
        self.input.wants_bytes()
    }

    /// Takes in what a read brought and tells whether an event waits.
    pub fn poll(&mut self, data: &[u8]) -> (r: bool)
        requires
            old(self)@.events.len() > 0 ==> data@.len() == 0,
        ensures
            final(self)@ == (if old(self)@.events.len() > 0 {
                old(self)@
            } else {
                received(old(self)@, data@)
            }),
            r == (final(self)@.events.len() > 0),
    {
        self.input.poll(data)
    }

    /// The next event.
    pub fn read(&mut self, data: &[u8]) -> (r: Result<Event, ReadError>)
        requires
            old(self)@.events.len() > 0 ==> data@.len() == 0,
        ensures
            ({
                let ready = if old(self)@.events.len() > 0 {
                    old(self)@
                } else {
                    received(old(self)@, data@)
                };
                if ready.events.len() > 0 {
                    &&& r == Ok::<Event, ReadError>(ready.events[0])
                    &&& final(self)@ == (InputView { events: ready.events.skip(1), ..ready })
                } else {
                    &&& r == Err::<Event, ReadError>(ReadError::WouldBlock)
                    &&& final(self)@ == ready
                }
            }),
    {
        self.input.read_event(data)
    }

    /// Takes the graphics responses that wait.
    pub fn take_kitty_responses(&mut self) -> (r: Vec<KittyResponse>)
        ensures
            r@.map_values(|k: KittyResponse| k@) == old(self)@.responses,
            final(self)@ == (InputView { responses: Seq::empty(), ..old(self)@ }),
    {
        self.input.take_kitty_responses()
    }

    /// Whether graphics responses wait.
    pub fn has_kitty_responses(&self) -> (r: bool)
        ensures
            r == (self@.responses.len() > 0),
    {
        self.input.has_kitty_responses()
    }
}

impl Default for UnifiedEventSource {
    fn default() -> (r: UnifiedEventSource)
        ensures
            r@ == no_input(),
    {
        UnifiedEventSource::new()
    }
}

// ---------------------------------------------------------------------------------------------
// Laws
// ---------------------------------------------------------------------------------------------
/// Parsing takes bytes from the front only and keeps what was queued: what is left is a suffix of
/// the bytes, and events and responses are added behind the ones that wait.
pub proof fn law_queues_only_grow(s: InputView)
    ensures
        exists|n: int|
            0 <= n <= s.bytes.len() && processed(s).bytes == #[trigger] s.bytes.skip(n),
        s.events.is_prefix_of(processed(s).events),
        s.responses.is_prefix_of(processed(s).responses),
    decreases s.bytes.len(),
{
    if s.bytes.len() == 0 {
        assert(s.bytes =~= s.bytes.skip(0));
    } else {
        lemma_step_advances(s.bytes, s.waited, s.held);
        match step(s.bytes, s.waited, s.held) {
            StepView::Event { used, event, held } => {
                let next = InputView {
                    bytes: s.bytes.skip(used),
                    events: s.events.push(event),
                    held,
                    waited: false,
                    ..s
                };
                law_queues_only_grow(next);
                let n = choose|n: int|
                    0 <= n <= next.bytes.len() && processed(next).bytes == #[trigger] next.bytes.skip(
                        n,
                    );
                assert(next.bytes.skip(n) =~= s.bytes.skip(used + n));
            },
            StepView::Response { used, response } => {
                let next = InputView {
                    bytes: s.bytes.skip(used),
                    responses: match response {
                        Some(k) => s.responses.push(k),
                        None => s.responses,
                    },
                    ..s
                };
                law_queues_only_grow(next);
                let n = choose|n: int|
                    0 <= n <= next.bytes.len() && processed(next).bytes == #[trigger] next.bytes.skip(
                        n,
                    );
                assert(next.bytes.skip(n) =~= s.bytes.skip(used + n));
            },
            StepView::Stop { used } => {},
        }
    }
}

/// The key presses of plain typed characters.
pub open spec fn typed(bytes: Seq<u8>) -> Seq<Event> {
    Seq::new(
        bytes.len(),
        |i: int| press(KeyCode::Char(bytes[i] as char), KeyModifiers::none()),
    )
}

/// Printable ASCII characters come out as one key press each, in order, and nothing of them is left.
pub proof fn law_typed_characters(s: InputView)
    requires
        forall|i: int| 0 <= i < s.bytes.len() ==> 32 <= #[trigger] s.bytes[i] < 127,
    ensures
        processed(s).bytes == Seq::<u8>::empty(),
        processed(s).events == s.events + typed(s.bytes),
        processed(s).responses == s.responses,
        processed(s).held == s.held,
    decreases s.bytes.len(),
{
    if s.bytes.len() == 0 {
        assert(s.bytes =~= Seq::<u8>::empty());
        assert(s.events + typed(s.bytes) =~= s.events);
    } else {
        let event = press(KeyCode::Char(s.bytes[0] as char), KeyModifiers::none());
        assert(step(s.bytes, s.waited, s.held) == StepView::Event { used: 1, event, held: s.held });
        let next = InputView {
            bytes: s.bytes.skip(1),
            events: s.events.push(event),
            waited: false,
            ..s
        };
        law_typed_characters(next);
        assert(next.events + typed(next.bytes) =~= s.events + typed(s.bytes));
    }
}

/// A complete graphics response at the front of the input reaches the queue of responses and no other:
/// parsing goes on behind it as if it had not been there.
pub proof fn law_response_is_told_apart(s: InputView, raw: Seq<u8>, rest: Seq<u8>)
    requires
        s.bytes == raw + rest,
        opens_response(raw),
        terminator(raw, 0) == raw.len() - 2,
    ensures
        processed(s) == processed(
            InputView {
                bytes: rest,
                responses: match parsed_response(raw) {
                    Some(k) => s.responses.push(k),
                    None => s.responses,
                },
                ..s
            },
        ),
{
    lemma_terminator_of_prefix(raw, rest, 0);
    assert(s.bytes.take(raw.len() as int) =~= raw);
    assert(s.bytes.skip(raw.len() as int) =~= rest);
}

proof fn lemma_terminator_of_prefix(raw: Seq<u8>, rest: Seq<u8>, i: int)
    requires
        0 <= i <= terminator(raw, i),
        terminator(raw, i) == raw.len() - 2,
    ensures
        terminator(raw + rest, i) == terminator(raw, i),
    decreases raw.len() - i,
{
    lemma_ends_in_range(raw, i);
    if i + 1 < raw.len() && !(raw[i] == 27 && raw[i + 1] == 92) {
        lemma_ends_in_range(raw, i + 1);
        lemma_terminator_of_prefix(raw, rest, i + 1);
    }
}

/// A graphics response of which the end has not arrived stays in the buffer whole, and no event is
/// made of it.
pub proof fn law_incomplete_response_waits(s: InputView)
    requires
        opens_response(s.bytes),
        terminator(s.bytes, 0) >= s.bytes.len(),
    ensures
        processed(s) == s,
{
    assert(s.bytes.skip(0) =~= s.bytes);
}

/// A button counts as held from the report of its press to the report of its release: a press of a
/// button makes the following motion a drag of it, a release makes it a mere move.
pub proof fn law_held_button_names_the_drag(
    press_code: int,
    motion_code: int,
    held: Option<MouseButton>,
)
    requires
        0 <= press_code < 32,
        32 <= motion_code < 64,
    ensures
        mouse_kind(press_code, false, held) == MouseEventKind::Down(mouse_button(press_code)),
        mouse_kind(motion_code, false, held_after(press_code, false, held))
            == MouseEventKind::Drag(mouse_button(press_code)),
        mouse_kind(motion_code, false, held_after(press_code, true, held)) == MouseEventKind::Moved,
        held_after(motion_code, false, held) == held,
{
}

proof fn lemma_ends_stay(buf: Seq<u8>, more: Seq<u8>, i: int)
    requires
        0 <= i,
    ensures
        sequence_end(buf, i) < buf.len() ==> sequence_end(buf + more, i) == sequence_end(buf, i),
        mouse_end(buf, i) < buf.len() ==> mouse_end(buf + more, i) == mouse_end(buf, i),
        terminator(buf, i) < buf.len() ==> terminator(buf + more, i) == terminator(buf, i),
    decreases buf.len() - i,
{
    if i < buf.len() {
        assert((buf + more)[i] == buf[i]);
        lemma_ends_in_range(buf, i);
        if i + 1 < buf.len() {
            assert((buf + more)[i + 1] == buf[i + 1]);
        }
        lemma_ends_stay(buf, more, i + 1);
    }
}

/// What the front of the input amounts to does not change with what comes behind it: only a front that
/// waits for more bytes is read otherwise once they come.
pub proof fn law_more_input_changes_nothing_before_it(
    buf: Seq<u8>,
    more: Seq<u8>,
    waited: bool,
    held: Option<MouseButton>,
)
    requires
        buf.len() > 0,
        step(buf, false, held) matches StepView::Stop { used } ==> used > 0,
    ensures
        step(buf + more, waited, held) == step(buf, false, held),
{
    let all = buf + more;
    assert(all[0] == buf[0]);
    lemma_ends_stay(buf, more, 0);
    lemma_ends_stay(buf, more, 2);
    lemma_ends_stay(buf, more, 3);
    lemma_ends_in_range(buf, 0);
    lemma_ends_in_range(buf, 2);
    lemma_ends_in_range(buf, 3);
    if buf.len() >= 2 {
        assert(all[1] == buf[1]);
    }
    if buf.len() >= 3 {
        assert(all[2] == buf[2]);
    }
    if opens_response(buf) {
        let end = terminator(buf, 0);
        assert(all.take(end + 2) =~= buf.take(end + 2));
    } else if buf[0] == 27 {
        if buf[1] == 91 && buf.len() >= 3 {
            if buf[2] == 60 {
                let end = mouse_end(buf, 3);
                assert(all.subrange(3, end) =~= buf.subrange(3, end));
                assert(all[end] == buf[end]);
            } else {
                let end = sequence_end(buf, 2);
                assert(all.subrange(2, end) =~= buf.subrange(2, end));
                assert(all[end] == buf[end]);
            }
        }
    } else if utf8_width(buf[0]) <= buf.len() {
        assert(all.take(utf8_width(buf[0])) =~= buf.take(utf8_width(buf[0])));
    }
}

/// Whether everything in the input up to a front that waits for more is made of whole events and
/// responses.
pub open spec fn is_whole(bytes: Seq<u8>, held: Option<MouseButton>) -> bool
    decreases bytes.len(),
{
    if bytes.len() == 0 {
        true
    } else {
        proof {
            lemma_step_advances(bytes, false, held);
        }
        match step(bytes, false, held) {
            StepView::Event { used, held: after, .. } => is_whole(bytes.skip(used), after),
            StepView::Response { used, .. } => is_whole(bytes.skip(used), held),
            StepView::Stop { used } => used == 0,
        }
    }
}

/// Input that arrives in two parts gives the same events and responses as input that arrives at once,
/// wherever between or within its events it is cut.
pub proof fn law_input_may_be_cut(s: InputView, more: Seq<u8>)
    requires
        is_whole(s.bytes, s.held),
        !s.waited,
    ensures
        processed(InputView { bytes: s.bytes + more, ..s }) == processed(
            InputView { bytes: processed(s).bytes + more, ..processed(s) },
        ),
    decreases s.bytes.len(),
{
    if s.bytes.len() == 0 {
        assert(processed(s) == s);
    } else {
        lemma_step_advances(s.bytes, false, s.held);
        let all = InputView { bytes: s.bytes + more, ..s };
        match step(s.bytes, false, s.held) {
            StepView::Event { used, event, held } => {
                law_more_input_changes_nothing_before_it(s.bytes, more, false, s.held);
                let next = InputView {
                    bytes: s.bytes.skip(used),
                    events: s.events.push(event),
                    held,
                    waited: false,
                    ..s
                };
                law_input_may_be_cut(next, more);
                assert(all.bytes.skip(used) =~= next.bytes + more);
                assert(processed(all) == processed(InputView { bytes: next.bytes + more, ..next }));
                assert(processed(s) == processed(next));
            },
            StepView::Response { used, response } => {
                law_more_input_changes_nothing_before_it(s.bytes, more, false, s.held);
                let next = InputView {
                    bytes: s.bytes.skip(used),
                    responses: match response {
                        Some(k) => s.responses.push(k),
                        None => s.responses,
                    },
                    ..s
                };
                law_input_may_be_cut(next, more);
                assert(all.bytes.skip(used) =~= next.bytes + more);
                assert(processed(all) == processed(InputView { bytes: next.bytes + more, ..next }));
                assert(processed(s) == processed(next));
            },
            StepView::Stop { used } => {
                assert(s.bytes.skip(0) =~= s.bytes);
                assert(processed(s) == s);
            },
        }
    }
}

proof fn lemma_not_waiting(s: InputView)
    requires
        !s.waited,
    ensures
        !processed(s).waited,
    decreases s.bytes.len(),
{
    if s.bytes.len() > 0 {
        lemma_step_advances(s.bytes, s.waited, s.held);
        match step(s.bytes, s.waited, s.held) {
            StepView::Event { used, event, held } => {
                lemma_not_waiting(
                    InputView {
                        bytes: s.bytes.skip(used),
                        events: s.events.push(event),
                        held,
                        waited: false,
                        ..s
                    },
                );
            },
            StepView::Response { used, response } => {
                lemma_not_waiting(
                    InputView {
                        bytes: s.bytes.skip(used),
                        responses: match response {
                            Some(k) => s.responses.push(k),
                            None => s.responses,
                        },
                        ..s
                    },
                );
            },
            StepView::Stop { .. } => {},
        }
    }
}

/// Two reads give what one read of all their bytes gives.
pub proof fn law_reads_may_be_cut(s: InputView, first: Seq<u8>, second: Seq<u8>)
    requires
        first.len() > 0,
        second.len() > 0,
        is_whole(s.bytes + first, s.held),
    ensures
        received(received(s, first), second) == received(s, first + second),
{
    let one = InputView { bytes: s.bytes + first, waited: false, ..s };
    lemma_not_waiting(one);
    law_input_may_be_cut(one, second);
    assert(s.bytes + (first + second) =~= one.bytes + second);
}

/// A graphics response that arrives in two reads, wherever it is cut, reaches
/// the queue of responses as one that arrives at once, and no key press is made of any part of it.
pub proof fn law_cut_response_is_told_apart(
    s: InputView,
    first: Seq<u8>,
    second: Seq<u8>,
)
    requires
        s.bytes.len() == 0,
        first.len() > 0,
        second.len() > 0,
        opens_response(first + second),
        terminator(first + second, 0) + 2 == (first + second).len(),
    ensures
        received(received(s, first), second) == received(s, first + second),
        received(s, first) == (InputView { bytes: first, waited: false, ..s }),
        received(s, first + second) == (InputView {
            bytes: Seq::empty(),
            waited: false,
            responses: match parsed_response(first + second) {
                Some(k) => s.responses.push(k),
                None => s.responses,
            },
            ..s
        }),
{
    let all = first + second;
    assert(s.bytes + all =~= all);
    assert(s.bytes + first =~= first);
    lemma_ends_in_range(first, 0);
    lemma_ends_stay(first, second, 0);
    assert(all[0] == first[0]);
    if first.len() >= 2 {
        assert(all[1] == first[1]);
    }
    if first.len() >= 3 {
        assert(all[2] == first[2]);
    }
    assert(first.skip(0) =~= first);
    assert(step(first, false, s.held) == StepView::Stop { used: 0 });
    law_reads_may_be_cut(s, first, second);
    assert(all.take(all.len() as int) =~= all);
    assert(all.skip(all.len() as int) =~= Seq::<u8>::empty());
    let one = InputView { bytes: all, waited: false, ..s };
    let next = InputView {
        bytes: Seq::empty(),
        responses: match parsed_response(all) {
            Some(k) => s.responses.push(k),
            None => s.responses,
        },
        ..one
    };
    assert(processed(one) == processed(next));
}

} // verus!
