//! The line-editing command interpreter.
//!
//! The shell owns a line buffer and a tick counter. Each key it is given
//! changes the buffer and is answered with the operations to carry out on the
//! screen; a newline runs the buffered line as a command.

use crate::allocator::{memstat, DummyAllocator, HEAP_SIZE};
use crate::screen::{
    blanks, lemma_text_concat, put_blanks, put_char, put_chars, put_decimal, put_str, written,
    ScreenOp,
};
use crate::text::{decimal, join, join_words, split_whitespace, word_is, word_views, words};
use vstd::prelude::*;

verus! {

/// A key of the keyboard that has no character of its own.
#[derive(Clone, Copy, Debug, PartialEq, Eq, Structural)]
pub enum KeyCode {
    /// The backspace key.
    Backspace,
    /// Any other key.
    Other,
}

/// A decoded key press: a character, or a key without one.
#[derive(Clone, Copy, Debug, PartialEq, Eq, Structural)]
pub enum DecodedKey {
    /// A key without a character.
    RawKey(KeyCode),
    /// A character.
    Unicode(char),
}

/// The shell's state.
pub struct Shell {
    /// The line typed so far.
    pub buf: Vec<char>,
    /// Timer ticks counted since start, modulo 2^64.
    pub ticks: u64,
}

/// The prompt.
pub open spec fn prompt_text() -> Seq<char> {
    "> "@
}

/// What redrawing the line writes: a return to the start of the line, blanks
/// over the `rendered` cells that the prompt and the old buffer took, another
/// return, then the prompt and the buffer `buf`.
pub open spec fn redrawn(buf: Seq<char>, rendered: nat) -> Seq<ScreenOp> {
    written(seq!['\r'] + blanks(rendered) + seq!['\r'] + prompt_text() + buf)
}

/// The text that the `help` command writes.
pub open spec fn help_text() -> Seq<char> {
    "Built-ins:\n"@ + "  echo [text...]  - print text\n"@ + "  clear           - clear screen\n"@
        + "  ticks           - show timer ticks\n"@ + "  memstat         - show allocator usage\n"@
        + "  help            - this message\n"@
}

/// The text that the `memstat` command writes.
pub open spec fn memstat_text(used: nat, total: nat) -> Seq<char> {
    "used: "@ + decimal(used) + " / "@ + decimal(total) + " bytes\n"@
}

/// What running `line` as a command asks of the screen.
///
/// The first word of the line names the command and the other words are its
/// arguments. An empty line does nothing. `echo` writes its arguments with
/// one blank between each two, and nothing at all when it has none.
pub open spec fn command_output(line: Seq<char>, ticks: u64, used: nat, total: nat) -> Seq<
    ScreenOp,
> {
    let w = words(line);
    if w.len() == 0 {
        Seq::empty()
    } else if w[0] == "echo"@ {
        if w.len() > 1 {
            written(join(w.skip(1), ' ') + seq!['\n'])
        } else {
            Seq::empty()
        }
    } else if w[0] == "clear"@ {
        seq![ScreenOp::Clear]
    } else if w[0] == "ticks"@ {
        written(decimal(ticks as nat) + seq!['\n'])
    } else if w[0] == "memstat"@ {
        written(memstat_text(used, total))
    } else if w[0] == "help"@ {
        written(help_text())
    } else {
        written("unknown: "@ + w[0] + seq!['\n'])
    }
}

/// The buffer after `key` has been handled.
pub open spec fn key_buffer(buf: Seq<char>, key: DecodedKey) -> Seq<char> {
    match key {
        DecodedKey::Unicode(c) => if c == '\n' {
            Seq::empty()
        } else {
            buf.push(c)
        },
        DecodedKey::RawKey(KeyCode::Backspace) => if buf.len() > 0 {
            buf.drop_last()
        } else {
            buf
        },
        DecodedKey::RawKey(KeyCode::Other) => buf,
    }
}

/// What handling `key` asks of the screen.
///
/// A newline ends the line on the screen, runs the buffer as a command and
/// writes a fresh prompt. Any other character is echoed. Backspace redraws
/// the line over the cells that the prompt and the buffer took before the
/// last character was removed, and does nothing on an empty buffer.
pub open spec fn key_output(
    buf: Seq<char>,
    ticks: u64,
    key: DecodedKey,
    used: nat,
    total: nat,
) -> Seq<ScreenOp> {
    match key {
        DecodedKey::Unicode(c) => if c == '\n' {
            written(seq!['\n']) + command_output(buf, ticks, used, total) + written(
                prompt_text(),
            )
        } else {
            written(seq![c])
        },
        DecodedKey::RawKey(KeyCode::Backspace) => if buf.len() > 0 {
            redrawn(buf.drop_last(), buf.len() + 2)
        } else {
            Seq::empty()
        },
        DecodedKey::RawKey(KeyCode::Other) => Seq::empty(),
    }
}

/// Whether `word` names one of the five built-in commands.
pub open spec fn is_builtin(word: Seq<char>) -> bool {
    ||| word == "echo"@
    ||| word == "clear"@
    ||| word == "ticks"@
    ||| word == "memstat"@
    ||| word == "help"@
}

/// A line whose first word is `echo` writes its other words with one blank
/// between each two and a newline after the last, and nothing where there
/// are no other words.
pub proof fn lemma_echo_writes_arguments(line: Seq<char>, ticks: u64, used: nat, total: nat)
    requires
        words(line).len() > 0,
        words(line)[0] == "echo"@,
    ensures
        command_output(line, ticks, used, total) == if words(line).len() > 1 {
            written(join(words(line).skip(1), ' ') + seq!['\n'])
        } else {
            Seq::<ScreenOp>::empty()
        },
{
}

/// A line whose first word is `memstat` writes the bytes in use and the
/// capacity, whatever follows the word.
pub proof fn lemma_memstat_reports_usage(line: Seq<char>, ticks: u64, used: nat, total: nat)
    requires
        words(line).len() > 0,
        words(line)[0] == "memstat"@,
    ensures
        command_output(line, ticks, used, total) == written(
            "used: "@ + decimal(used) + " / "@ + decimal(total) + " bytes\n"@,
        ),
{
    reveal_strlit("memstat");
    reveal_strlit("echo");
    reveal_strlit("clear");
    reveal_strlit("ticks");
    assert("memstat"@.len() == 7);
    assert("echo"@.len() == 4);
    assert("clear"@.len() == 5);
    assert("ticks"@.len() == 5);
}

/// A line whose first word is no built-in command writes `unknown: `, the
/// word and a newline, and nothing else.
pub proof fn lemma_unknown_command_is_named(line: Seq<char>, ticks: u64, used: nat, total: nat)
    requires
        words(line).len() > 0,
        !is_builtin(words(line)[0]),
    ensures
        command_output(line, ticks, used, total) == written(
            "unknown: "@ + words(line)[0] + seq!['\n'],
        ),
{
}

/// A newline always ends with a fresh prompt and an empty buffer, whatever
/// the line held: the shell goes on after every command.
pub proof fn lemma_newline_renews_prompt(buf: Seq<char>, ticks: u64, used: nat, total: nat)
    ensures
        key_buffer(buf, DecodedKey::Unicode('\n')) == Seq::<char>::empty(),
        ({
            let out = key_output(buf, ticks, DecodedKey::Unicode('\n'), used, total);
            let prompt = written(prompt_text());
            &&& out.len() >= prompt.len() + 1
            &&& out[0] == ScreenOp::Put('\n')
            &&& out.subrange(out.len() - prompt.len(), out.len() as int) == prompt
        }),
{
}

/// Backspace on an empty buffer changes nothing and writes nothing.
pub proof fn lemma_backspace_on_empty_buffer(ticks: u64, used: nat, total: nat)
    ensures
        key_buffer(Seq::empty(), DecodedKey::RawKey(KeyCode::Backspace)) == Seq::<char>::empty(),
        key_output(Seq::empty(), ticks, DecodedKey::RawKey(KeyCode::Backspace), used, total)
            == Seq::<ScreenOp>::empty(),
{
}

impl Shell {
    /// A shell with an empty line and no ticks counted.
    pub fn new() -> (r: Shell)
        ensures
            r.buf@ == Seq::<char>::empty(),
            r.ticks == 0,
    {
        Shell { buf: Vec::new(), ticks: 0 }
    }

    /// Asks for the prompt to be written.
    pub fn prompt(&self) -> (r: Vec<ScreenOp>)
        ensures
            r@ == written(prompt_text()),
    {
        let mut out: Vec<ScreenOp> = Vec::new();
        put_str(&mut out, "> ");
        out
    }

    /// Asks for the line to be redrawn after the buffer has changed.
    ///
    /// `previous` is the number of characters that the buffer held when the
    /// line was last drawn; with the prompt, `previous + 2` cells are blanked
    /// before the prompt and the present buffer are written again.
    pub fn redraw_line(&self, previous: usize) -> (r: Vec<ScreenOp>)
        ensures
            r@ == redrawn(self.buf@, previous as nat + 2),
    {
        let mut out: Vec<ScreenOp> = Vec::new();
        put_char(&mut out, '\r');
        put_blanks(&mut out, previous);
        put_blanks(&mut out, 2);
        put_char(&mut out, '\r');
        put_str(&mut out, "> ");
        put_chars(&mut out, &self.buf);
        proof {
            let erase = blanks(previous as nat + 2);
            assert(blanks(previous as nat) + blanks(2) == erase);
            lemma_text_concat(blanks(previous as nat), blanks(2));
            lemma_text_concat(seq!['\r'], erase);
            lemma_text_concat(seq!['\r'] + erase, seq!['\r']);
            lemma_text_concat(seq!['\r'] + erase + seq!['\r'], prompt_text());
            lemma_text_concat(seq!['\r'] + erase + seq!['\r'] + prompt_text(), self.buf@);
            assert(out@ == written(seq!['\r']) + written(erase) + written(seq!['\r']) + written(
                prompt_text(),
            ) + written(self.buf@));
        }
        out
    }

    /// Handles one key press.
    ///
    /// `heap` is the arena that `memstat` reports on.
    pub fn handle_key(&mut self, key: DecodedKey, heap: &DummyAllocator) -> (r: Vec<ScreenOp>)
        ensures
            final(self).buf@ == key_buffer(old(self).buf@, key),
            final(self).ticks == old(self).ticks,
            r@ == key_output(
                old(self).buf@,
                old(self).ticks,
                key,
                heap@.cursor as nat,
                HEAP_SIZE as nat,
            ),
    {
        match key {
            DecodedKey::Unicode(c) => {
                let mut out: Vec<ScreenOp> = Vec::new();
                if c == '\n' {
                    put_char(&mut out, '\n');
                    let mut ran = self.execute(heap);
                    out.append(&mut ran);
                    self.buf.clear();
                    let mut fresh = self.prompt();
                    out.append(&mut fresh);
                } else {
                    self.buf.push(c);
                    put_char(&mut out, c);
                }
                out
            },
            DecodedKey::RawKey(KeyCode::Backspace) => {
                if self.buf.len() > 0 {
                    let previous: usize = self.buf.len();
                    self.buf.pop();
                    self.redraw_line(previous)
                } else {
                    Vec::new()
                }
            },
            DecodedKey::RawKey(KeyCode::Other) => Vec::new(),
        }
    }

    /// Runs the buffered line as a command and empties the buffer.
    ///
    /// `heap` is the arena that `memstat` reports on.
    pub fn execute(&mut self, heap: &DummyAllocator) -> (r: Vec<ScreenOp>)
        ensures
            final(self).buf@ == Seq::<char>::empty(),
            final(self).ticks == old(self).ticks,
            r@ == command_output(
                old(self).buf@,
                old(self).ticks,
                heap@.cursor as nat,
                HEAP_SIZE as nat,
            ),
    {
        let mut input: Vec<char> = Vec::new();
        core::mem::swap(&mut input, &mut self.buf);
        let parts = split_whitespace(&input);
        let mut out: Vec<ScreenOp> = Vec::new();
        if parts.len() == 0 {
            return out;
        }
        proof {
            assert(word_views(parts@)[0] == parts@[0]@);
        }
        let cmd = &parts[0];
        if word_is(cmd, "echo") {
            if parts.len() > 1 {
                let said = join_words(&parts, 1, ' ');
                put_chars(&mut out, &said);
                put_char(&mut out, '\n');
                proof {
                    lemma_text_concat(said@, seq!['\n']);
                }
            }
        } else if word_is(cmd, "clear") {
            out.push(ScreenOp::Clear);
        } else if word_is(cmd, "ticks") {
            put_decimal(&mut out, self.ticks);
            put_char(&mut out, '\n');
            proof {
                lemma_text_concat(decimal(self.ticks as nat), seq!['\n']);
            }
        } else if word_is(cmd, "memstat") {
            let (used, total) = memstat(heap);
            put_str(&mut out, "used: ");
            put_decimal(&mut out, used as u64);
            put_str(&mut out, " / ");
            put_decimal(&mut out, total as u64);
            put_str(&mut out, " bytes\n");
            proof {
                let a = "used: "@;
                let b = decimal(used as nat);
                let c = " / "@;
                let d = decimal(total as nat);
                lemma_text_concat(a, b);
                lemma_text_concat(a + b, c);
                lemma_text_concat(a + b + c, d);
                lemma_text_concat(a + b + c + d, " bytes\n"@);
            }
        } else if word_is(cmd, "help") {
            put_str(&mut out, "Built-ins:\n");
            put_str(&mut out, "  echo [text...]  - print text\n");
            put_str(&mut out, "  clear           - clear screen\n");
            put_str(&mut out, "  ticks           - show timer ticks\n");
            put_str(&mut out, "  memstat         - show allocator usage\n");
            put_str(&mut out, "  help            - this message\n");
            proof {
                let a = "Built-ins:\n"@;
                let b = "  echo [text...]  - print text\n"@;
                let c = "  clear           - clear screen\n"@;
                let d = "  ticks           - show timer ticks\n"@;
                let e = "  memstat         - show allocator usage\n"@;
                lemma_text_concat(a, b);
                lemma_text_concat(a + b, c);
                lemma_text_concat(a + b + c, d);
                lemma_text_concat(a + b + c + d, e);
                lemma_text_concat(a + b + c + d + e, "  help            - this message\n"@);
            }
        } else {
            put_str(&mut out, "unknown: ");
            put_chars(&mut out, cmd);
            put_char(&mut out, '\n');
            proof {
                lemma_text_concat("unknown: "@, cmd@);
                lemma_text_concat("unknown: "@ + cmd@, seq!['\n']);
            }
        }
        out
    }
}

/// The startup handler: asks for the first prompt.
pub fn start(shell: &Shell) -> (r: Vec<ScreenOp>)
    ensures
        r@ == written(prompt_text()),
{
    shell.prompt()
}

/// The timer handler: counts one tick, wrapping to zero after `u64::MAX`.
pub fn tick(shell: &mut Shell)
    ensures
        final(shell).ticks == if old(shell).ticks == u64::MAX {
            0
        } else {
            old(shell).ticks + 1
        },
        final(shell).buf == old(shell).buf,
{
    shell.ticks = shell.ticks.wrapping_add(1);
}

/// The keyboard handler: hands the key to the shell.
pub fn key(shell: &mut Shell, pressed: DecodedKey, heap: &DummyAllocator) -> (r: Vec<ScreenOp>)
    ensures
        final(shell).buf@ == key_buffer(old(shell).buf@, pressed),
        final(shell).ticks == old(shell).ticks,
        r@ == key_output(
            old(shell).buf@,
            old(shell).ticks,
            pressed,
            heap@.cursor as nat,
            HEAP_SIZE as nat,
        ),
{
    shell.handle_key(pressed, heap)
}

} // verus!
