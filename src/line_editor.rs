use vstd::prelude::*;
use pc_keyboard::KeyCode;

verus! {

/// The longest command line that the editor keeps.
pub const INPUT_BUFFER_SIZE: usize = 256;

#[verifier::external_type_specification]
#[verifier::external_body]
pub struct ExKeyCode(KeyCode);

/// A decoded key press.
#[derive(Debug, Clone, Copy)]
pub enum Key {
    /// A key that stands for a character.
    Char(char),
    /// A key without a character (arrows, function keys, ...).
    Raw(KeyCode),
}

/// What the console should do after a key has been handled.
#[derive(Debug)]
pub enum EditAction {
    /// A line was finished: dispatch these bytes, then draw a new prompt.
    Submit(Vec<u8>),
    /// The cursor moved back over one character: erase that cell.
    Erase,
    /// A character was stored: show it.
    Echo(char),
    /// A key without a character: show its name.
    ShowRaw(KeyCode),
    /// Nothing changed and nothing is to be shown.
    Ignore,
}

/// The byte that the line buffer keeps for a character.
pub open spec fn byte_of(c: char) -> u8 {
    (c as u32 % 256) as u8
}

/// The buffer cells and cursor after one character has been handled.
pub open spec fn edit_spec(cells: Seq<u8>, pos: nat, c: char) -> (Seq<u8>, nat) {
    if c == '\n' {
        (Seq::new(INPUT_BUFFER_SIZE as nat, |i: int| 0u8), 0)
    } else if c == '\x08' {
        (cells, if pos > 0 {
            (pos - 1) as nat
        } else {
            0
        })
    } else if pos < INPUT_BUFFER_SIZE {
        (cells.update(pos as int, byte_of(c)), pos + 1)
    } else {
        (cells, pos)
    }
}

/// The action reported for character `c`, typed on line `line` with the
/// cursor at `pos`.
pub open spec fn char_action(line: Seq<u8>, pos: nat, c: char, r: EditAction) -> bool {
    if c == '\n' {
        r matches EditAction::Submit(l) && l@ == line
    } else if c == '\x08' {
        if pos > 0 {
            r is Erase
        } else {
            r is Ignore
        }
    } else if pos < INPUT_BUFFER_SIZE {
        r == EditAction::Echo(c)
    } else {
        r is Ignore
    }
}

/// The fixed-capacity line buffer and cursor of the keyboard task.
pub struct LineEditor {
    buffer: Vec<u8>,
    position: usize,
}

impl LineEditor {
    /// Every cell of the buffer, typed or not.
    pub closed spec fn cells(&self) -> Seq<u8> {
        self.buffer@
    }

    /// The cursor: how many cells belong to the current line.
    pub closed spec fn position(&self) -> nat {
        self.position as nat
    }

    /// The current line: the cells before the cursor.
    pub open spec fn line(&self) -> Seq<u8> {
        self.cells().take(self.position() as int)
    }

    pub closed spec fn wf(&self) -> bool {
        &&& self.buffer@.len() == INPUT_BUFFER_SIZE
        &&& self.position <= INPUT_BUFFER_SIZE
    }

    pub fn new() -> (r: LineEditor)
        ensures
            r.wf(),
            r.cells() == Seq::new(INPUT_BUFFER_SIZE as nat, |i: int| 0u8),
            r.position() == 0,
    {
        let buffer: Vec<u8> = vec![0u8; INPUT_BUFFER_SIZE];
        assert(buffer@ =~= Seq::new(INPUT_BUFFER_SIZE as nat, |i: int| 0u8));
        LineEditor { buffer, position: 0 }
    }

    /// The current line, as bytes.
    pub fn current_line(&self) -> (r: Vec<u8>)
        requires
            self.wf(),
        ensures
            r@ == self.line(),
    {
        let mut r: Vec<u8> = Vec::new();
        let mut i: usize = 0;
        while i < self.position
            invariant
                self.wf(),
                i <= self.position,
                r@ == self.buffer@.take(i as int),
            decreases self.position - i,
        {
            r.push(self.buffer[i]);
            i += 1;
            assert(r@ =~= self.buffer@.take(i as int));
        }
        r
    }

    /// Handles one typed character. A newline hands over the line and
    /// empties the buffer; a backspace moves the cursor back unless it is at
    /// the start; any other character is stored and shown if there is room,
    /// and silently dropped if the buffer is full.
    pub fn handle_char(&mut self, c: char) -> (r: EditAction)
        requires
            old(self).wf(),
        ensures
            final(self).wf(),
            (final(self).cells(), final(self).position()) == edit_spec(
                old(self).cells(),
                old(self).position(),
                c,
            ),
            char_action(old(self).line(), old(self).position(), c, r),
    {
        if c == '\n' {
            let line = self.current_line();
            let mut i: usize = 0;
            while i < INPUT_BUFFER_SIZE
                invariant
                    self.buffer@.len() == INPUT_BUFFER_SIZE,
                    i <= INPUT_BUFFER_SIZE,
                    forall|j: int| 0 <= j < i ==> self.buffer@[j] == 0u8,
                decreases INPUT_BUFFER_SIZE - i,
            {
                self.buffer.set(i, 0u8);
                i += 1;
            }
            self.position = 0;
            assert(self.buffer@ =~= Seq::new(INPUT_BUFFER_SIZE as nat, |i: int| 0u8));
            EditAction::Submit(line)
        } else if c == '\x08' {
            if self.position > 0 {
                self.position -= 1;
                EditAction::Erase
            } else {
                EditAction::Ignore
            }
        } else if self.position < INPUT_BUFFER_SIZE {
            let b = (c as u32 % 256) as u8;
            self.buffer.set(self.position, b);
            self.position += 1;
            EditAction::Echo(c)
        } else {
            EditAction::Ignore
        }
    }

    /// Handles one decoded key: characters go to `handle_char`, other keys
    /// are shown and leave the buffer alone.
    pub fn handle_key(&mut self, key: Key) -> (r: EditAction)
        requires
            old(self).wf(),
        ensures
            final(self).wf(),
            key_effect(*old(self), key, *final(self), r),
    {
        match key {
            Key::Char(c) => self.handle_char(c),
            Key::Raw(k) => EditAction::ShowRaw(k),
        }
    }
}

/// How handling `key` takes the editor from `before` to `after`, reporting `r`.
pub open spec fn key_effect(before: LineEditor, key: Key, after: LineEditor, r: EditAction) -> bool {
    &&& after.wf()
    &&& match key {
        Key::Char(c) => {
            &&& (after.cells(), after.position()) == edit_spec(before.cells(), before.position(), c)
            &&& char_action(before.line(), before.position(), c, r)
        },
        Key::Raw(k) => {
            &&& after.cells() == before.cells()
            &&& after.position() == before.position()
            &&& r == EditAction::ShowRaw(k)
        },
    }
}

/// A backspace with the cursor at the start of the line changes nothing.
pub proof fn lemma_backspace_at_start_is_noop(cells: Seq<u8>)
    ensures
        edit_spec(cells, 0, '\x08') == (cells, 0nat),
{
}

/// Typing a character, erasing it and typing it again leaves the buffer and
/// the cursor as the first keystroke left them, whenever that keystroke found
/// room in the buffer.
pub proof fn lemma_retype_restores(cells: Seq<u8>, pos: nat, c: char)
    requires
        cells.len() == INPUT_BUFFER_SIZE,
        pos < INPUT_BUFFER_SIZE,
        c != '\n',
        c != '\x08',
    ensures
        ({
            let typed = edit_spec(cells, pos, c);
            let erased = edit_spec(typed.0, typed.1, '\x08');
            edit_spec(erased.0, erased.1, c) == typed
        }),
{
    let typed = edit_spec(cells, pos, c);
    assert(typed.0.update(pos as int, byte_of(c)) =~= typed.0);
}

} // verus!
