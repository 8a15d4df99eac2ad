//! The screen behind a session: what its terminal shows of the output that it was given.

use vstd::prelude::*;

verus! {

// ---------------------------------------------------------------------------------------------
// What a terminal has been through
// ---------------------------------------------------------------------------------------------

/// One thing that happened to a terminal.
pub enum TerminalStep {
    /// It was opened, with room for so many lines that have scrolled off.
    Opened { rows: u16, cols: u16, scrollback: nat },
    /// It was given one run of output. Where output is cut into runs can matter, so runs are kept
    /// apart.
    Output(Seq<u8>),
    Resized { rows: u16, cols: u16 },
}

/// The rows and columns of a terminal: those that it was last given.
pub open spec fn size_after(steps: Seq<TerminalStep>) -> (u16, u16)
    decreases steps.len(),
{
    if steps.len() == 0 {
        (0, 0)
    } else {
        match steps.last() {
            TerminalStep::Opened { rows, cols, .. } => (rows, cols),
            TerminalStep::Resized { rows, cols } => (rows, cols),
            TerminalStep::Output(_) => size_after(steps.drop_last()),
        }
    }
}

/// A terminal that is given one more run of output.
pub open spec fn after_output(steps: Seq<TerminalStep>, bytes: Seq<u8>) -> Seq<TerminalStep> {
    steps.push(TerminalStep::Output(bytes))
}

/// A terminal that is resized.
pub open spec fn after_resize(steps: Seq<TerminalStep>, rows: u16, cols: u16) -> Seq<TerminalStep> {
    steps.push(TerminalStep::Resized { rows, cols })
}

/// Whether no output so far holds a character from U+1000 on, each of which begins with a byte from
/// 0xe1 on. Every character below that takes up one column at most.
pub open spec fn only_narrow(steps: Seq<TerminalStep>) -> bool {
    forall|i: int, k: int|
        0 <= i < steps.len() && (steps[i] matches TerminalStep::Output(bytes) && 0 <= k
            < bytes.len()) ==> (#[trigger] steps[i]->Output_0[k]) < 0xe1
}

/// Whether a screen of a size can draw whatever it is given: it has a row to scroll to, room for
/// the widest character, which counts for three columns, and a tab stop to reach behind its last
/// column.
pub open spec fn drawable(size: (u16, u16)) -> bool {
    size.0 >= 2 && 3 <= size.1 <= 65527
}

// ---------------------------------------------------------------------------------------------
// The terminal
// ---------------------------------------------------------------------------------------------

/// `vt100::Parser`, without callbacks of its own: what reads a terminal's output and keeps its
/// screen. It is known only by `terminal_steps` and `is_torn`.
#[verifier::external_body]
pub struct Terminal {
    parser: vt100::Parser,
}

/// `vt100::Screen`: the contents of a terminal, known only by `screen_size` and `screen_text`.
#[verifier::external_type_specification]
#[verifier::external_body]
pub struct ExScreen(vt100::Screen);

/// What a terminal has been through since it was opened.
pub uninterp spec fn terminal_steps(terminal: Terminal) -> Seq<TerminalStep>;

/// Whether a row of the terminal holds one half of a wide character without the other half. A
/// character that takes up more than one column has one cell for itself and one that goes with it.
pub uninterp spec fn is_torn(terminal: Terminal) -> bool;

/// The screen of a terminal that has been through some steps.
pub uninterp spec fn drawn_screen(steps: Seq<TerminalStep>) -> vt100::Screen;

/// The rows and columns of a screen.
pub uninterp spec fn screen_size(screen: vt100::Screen) -> (u16, u16);

/// The text on a screen.
pub uninterp spec fn screen_text(screen: vt100::Screen) -> Seq<char>;

/// `vt100::Parser::new`: an empty screen of the given size. Without a row it would count one too
/// few.
#[verifier::external_body]
pub(crate) fn new_parser(rows: u16, cols: u16, scrollback: usize) -> (r: Terminal)
    requires
        rows > 0,
    ensures
        terminal_steps(r) == seq![TerminalStep::Opened { rows, cols, scrollback: scrollback as nat }],
        !is_torn(r),
{
    Terminal { parser: vt100::Parser::new(rows, cols, scrollback) }
}

/// `vt100::Parser::process`: the output is taken in after all that came before. It never resizes
/// the screen, and completes or clears the other half of every wide character that it touches.
///
/// It relies on rows and columns that it does not check for, and on finding both halves of a wide
/// character, so a screen that is too small or torn is left out.
#[verifier::external_body]
pub(crate) fn process(terminal: &mut Terminal, bytes: &[u8])
    requires
        drawable(size_after(terminal_steps(*old(terminal)))),
        !is_torn(*old(terminal)),
    ensures
        terminal_steps(*final(terminal)) == terminal_steps(*old(terminal)).push(
            TerminalStep::Output(bytes@),
        ),
        !is_torn(*final(terminal)),
{
    terminal.parser.process(bytes);
}

/// `vt100::Screen::set_size`, on `vt100::Parser::screen_mut`: the screen has the given size from
/// then on. It subtracts one from either, so neither may be zero.
///
/// Each row is cut off or filled up at its end. A row that is not cut is not torn by that, and one
/// that was only ever given narrow characters has nothing in it to tear. Whether a cut goes through
/// a wide character elsewhere is not stated: it depends on where the output has drawn which characters.
#[verifier::external_body]
pub(crate) fn set_size(terminal: &mut Terminal, rows: u16, cols: u16)
    requires
        rows > 0,
        cols > 0,
    ensures
        terminal_steps(*final(terminal)) == terminal_steps(*old(terminal)).push(
            TerminalStep::Resized { rows, cols },
        ),
        !is_torn(*old(terminal)) && cols >= size_after(terminal_steps(*old(terminal))).1
            ==> !is_torn(*final(terminal)),
        only_narrow(terminal_steps(*old(terminal))) ==> !is_torn(*final(terminal)),
{
    terminal.parser.screen_mut().set_size(rows, cols);
}

/// `vt100::Parser::screen`: what the terminal shows. It follows from what the terminal has been
/// through, and its size is the one last given; what is drawn where is only named, by
/// `drawn_screen`.
#[verifier::external_body]
pub(crate) fn screen_of(terminal: &Terminal) -> (r: &vt100::Screen)
    ensures
        *r == drawn_screen(terminal_steps(*terminal)),
        screen_size(*r) == size_after(terminal_steps(*terminal)),
{
    terminal.parser.screen()
}

/// `vt100::Screen::size`: the rows and columns of the screen.
pub assume_specification[ vt100::Screen::size ](screen: &vt100::Screen) -> (r: (u16, u16))
    ensures
        r == screen_size(*screen),
;

/// `vt100::Screen::contents`: the text on the screen. Which text that is follows from the screen
/// alone and is only named, by `screen_text`.
pub assume_specification[ vt100::Screen::contents ](screen: &vt100::Screen) -> (r: String)
    ensures
        r@ == screen_text(*screen),
;

impl Terminal {
    /// What the terminal has been through since it was opened.
    pub open spec fn steps(&self) -> Seq<TerminalStep> {
        terminal_steps(*self)
    }

    /// Whether the terminal can be given output: its screen is large enough, and no character on
    /// it has been cut in half.
    pub open spec fn takes_output(&self) -> bool {
        drawable(size_after(self.steps())) && !is_torn(*self)
    }

    /// A terminal of some rows and columns, with nothing on it, that keeps no line once it has
    /// scrolled off.
    pub fn new(rows: u16, cols: u16) -> (r: Terminal)
        requires
            rows > 0,
        ensures
            r.steps() == seq![TerminalStep::Opened { rows, cols, scrollback: 0 }],
            size_after(r.steps()) == (rows, cols),
            !is_torn(r),
    {
        new_parser(rows, cols, 0)
    }

    /// Takes in what the child process has written, so that the screen is always current.
    pub fn take_output(&mut self, bytes: &[u8])
        requires
            old(self).takes_output(),
        ensures
            final(self).takes_output(),
            final(self).steps() == after_output(old(self).steps(), bytes@),
            final(self).steps() == old(self).steps().push(TerminalStep::Output(bytes@)),
            size_after(final(self).steps()) == size_after(old(self).steps()),
    {
        process(self, bytes);
        assert(self.steps().drop_last() =~= old(self).steps());
    }

    /// Brings the screen to the size that the terminal has been given, so that it renders
    /// correctly at that size. A screen that has not become narrower, or that has only ever been
    /// given narrow characters, is none the worse for it.
    pub fn resize(&mut self, rows: u16, cols: u16)
        requires
            rows > 0,
            cols > 0,
        ensures
            final(self).steps() == after_resize(old(self).steps(), rows, cols),
            final(self).steps() == old(self).steps().push(TerminalStep::Resized { rows, cols }),
            size_after(final(self).steps()) == (rows, cols),
            !is_torn(*old(self)) && cols >= size_after(old(self).steps()).1 ==> !is_torn(
                *final(self),
            ),
            only_narrow(old(self).steps()) ==> !is_torn(*final(self)),
    {
        set_size(self, rows, cols);
    }

    /// The screen, for rendering.
    pub fn screen(&self) -> (r: &vt100::Screen)
        ensures
            *r == drawn_screen(self.steps()),
            screen_size(*r) == size_after(self.steps()),
    {
        screen_of(self)
    }

    /// The rows and columns of the screen.
    pub fn size(&self) -> (r: (u16, u16))
        ensures
            r == size_after(self.steps()),
    {
        screen_of(self).size()
    }

    /// The text on the screen.
    pub fn contents(&self) -> (r: String)
        ensures
            r@ == screen_text(drawn_screen(self.steps())),
    {
        screen_of(self).contents()
    }
}

// ---------------------------------------------------------------------------------------------
// Laws
// ---------------------------------------------------------------------------------------------

/// A terminal after some runs of output.
pub open spec fn given(steps: Seq<TerminalStep>, runs: Seq<Seq<u8>>) -> Seq<TerminalStep> {
    steps + runs.map_values(|bytes: Seq<u8>| TerminalStep::Output(bytes))
}

/// No output changes the size of a terminal.
pub proof fn law_output_keeps_the_size(steps: Seq<TerminalStep>, runs: Seq<Seq<u8>>)
    ensures
        size_after(given(steps, runs)) == size_after(steps),
    decreases runs.len(),
{
    if runs.len() == 0 {
        assert(given(steps, runs) =~= steps);
    } else {
        law_output_keeps_the_size(steps, runs.drop_last());
        assert(given(steps, runs).drop_last() =~= given(steps, runs.drop_last()));
    }
}

/// Output and resizing are added behind what a terminal has been through, every byte of the output
/// in its place.
pub proof fn law_steps_are_added(
    steps: Seq<TerminalStep>,
    bytes: Seq<u8>,
    rows: u16,
    cols: u16,
)
    ensures
        after_output(steps, bytes).drop_last() == steps,
        after_output(steps, bytes).last() == TerminalStep::Output(bytes),
        after_output(steps, bytes) == given(steps, seq![bytes]),
        size_after(after_output(steps, bytes)) == size_after(steps),
        after_resize(steps, rows, cols).drop_last() == steps,
        size_after(after_resize(steps, rows, cols)) == (rows, cols),
{
    assert(after_output(steps, bytes).drop_last() =~= steps);
    assert(after_resize(steps, rows, cols).drop_last() =~= steps);
    assert(after_output(steps, bytes) =~= given(steps, seq![bytes]));
}

/// A terminal has the size that it was opened with until it is resized, whatever output follows.
pub proof fn law_opening_size(rows: u16, cols: u16, scrollback: nat, runs: Seq<Seq<u8>>)
    ensures
        size_after(given(seq![TerminalStep::Opened { rows, cols, scrollback }], runs)) == (
            rows,
            cols,
        ),
{
    law_output_keeps_the_size(seq![TerminalStep::Opened { rows, cols, scrollback }], runs);
}

/// The last resize decides the size of a terminal, whatever output follows.
pub proof fn law_last_resize_decides(
    steps: Seq<TerminalStep>,
    rows: u16,
    cols: u16,
    runs: Seq<Seq<u8>>,
)
    ensures
        size_after(given(steps.push(TerminalStep::Resized { rows, cols }), runs)) == (rows, cols),
{
    law_output_keeps_the_size(steps.push(TerminalStep::Resized { rows, cols }), runs);
}

} // verus!
