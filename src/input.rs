use vstd::prelude::*;

verus! {

/// Bit of the Shift key in `KeyInput::modifiers`.
pub const MODIFIER_SHIFT: u8 = 0b0000_0001;

/// Bit of the Control key in `KeyInput::modifiers`.
pub const MODIFIER_CONTROL: u8 = 0b0000_0010;

/// The key that was pressed, as far as the decoder tells keys apart.
#[derive(Debug, Clone, Copy, PartialEq, Eq, Structural)]
pub enum Key {
    Esc,
    Char(char),
    Other,
}

/// Whether a key went down, repeated or came up.
#[derive(Debug, Clone, Copy, PartialEq, Eq, Structural)]
pub enum KeyAction {
    Press,
    Repeat,
    Release,
}

/// One keyboard event: the key, the modifier keys held (one bit each), and
/// what happened to the key.
#[derive(Debug, Clone, Copy, PartialEq, Eq, Structural)]
pub struct KeyInput {
    pub key: Key,
    pub modifiers: u8,
    pub action: KeyAction,
}

/// An event from the terminal.
#[derive(Debug, Clone, Copy, PartialEq, Eq, Structural)]
pub enum InputEvent {
    Key(KeyInput),
    Mouse,
    Resize(u16, u16),
    FocusGained,
    FocusLost,
    Paste,
}

/// The two names the portfolio can show.
#[derive(Debug, Clone, Copy, PartialEq, Eq, Structural)]
pub enum CallSign {
    Primary,
    Secondary,
}

/// What the application does in answer to an event.
#[derive(Debug, Clone, Copy, PartialEq, Eq, Structural)]
pub enum Command {
    Quit,
    Next,
    Previous,
    SetCallSign(CallSign),
    Ignore,
}

impl CallSign {
    /// The text of the name.
    pub open spec fn spec_text(self) -> Seq<char> {
        match self {
            CallSign::Primary => "Karneeshkar V"@,
            CallSign::Secondary => "Veera"@,
        }
    }

    /// The text of the name.
    pub fn text(self) -> (r: &'static str)
        ensures
            r@ == self.spec_text(),
    {
        match self {
            CallSign::Primary => "Karneeshkar V",
            CallSign::Secondary => "Veera",
        }
    }
}

/// Whether the key asks to leave: Esc or `q` with any modifiers, or `c` or
/// `C` with Control and no other modifier.
pub open spec fn is_quit_key(k: KeyInput) -> bool {
    ||| k.key == Key::Esc
    ||| k.key == Key::Char('q')
    ||| (k.modifiers == MODIFIER_CONTROL && (k.key == Key::Char('c') || k.key == Key::Char('C')))
}

/// The command a pressed key stands for: quit keys first, then `[` and `]`
/// for the two names, `n` and `p` to move through the screens; any other
/// key is ignored.
pub open spec fn key_command(k: KeyInput) -> Command {
    if is_quit_key(k) {
        Command::Quit
    } else if k.key == Key::Char('[') {
        Command::SetCallSign(CallSign::Primary)
    } else if k.key == Key::Char(']') {
        Command::SetCallSign(CallSign::Secondary)
    } else if k.key == Key::Char('n') {
        Command::Next
    } else if k.key == Key::Char('p') {
        Command::Previous
    } else {
        Command::Ignore
    }
}

/// The command an event stands for: only key presses count.
pub open spec fn event_command(e: InputEvent) -> Command {
    match e {
        InputEvent::Key(k) => if k.action == KeyAction::Press {
            key_command(k)
        } else {
            Command::Ignore
        },
        _ => Command::Ignore,
    }
}

/// Maps a key to its command, whatever happened to the key.
pub fn decode_key(k: KeyInput) -> (r: Command)
    ensures
        r == key_command(k),
{
    match k.key {
        Key::Esc => Command::Quit,
        Key::Char('q') => Command::Quit,
        Key::Char('c') if k.modifiers == MODIFIER_CONTROL => Command::Quit,
        Key::Char('C') if k.modifiers == MODIFIER_CONTROL => Command::Quit,
        Key::Char('[') => Command::SetCallSign(CallSign::Primary),
        Key::Char(']') => Command::SetCallSign(CallSign::Secondary),
        Key::Char('n') => Command::Next,
        Key::Char('p') => Command::Previous,
        _ => Command::Ignore,
    }
}

/// Maps a terminal event to its command: a key press is decoded, everything
/// else (releases, repeats, mouse, resize, focus, paste) is ignored.
pub fn decode_event(e: InputEvent) -> (r: Command)
    ensures
        r == event_command(e),
{
    match e {
        InputEvent::Key(k) => {
            if k.action == KeyAction::Press {
                decode_key(k)
            } else {
                Command::Ignore
            }
        },
        _ => Command::Ignore,
    }
}

} // verus!
