//! The feed of what a session has been doing, built from its transcript.

use std::collections::VecDeque;

use vstd::prelude::*;

use crate::json::{array_field, get_field, parse_json, text_field, JsonTree};
use crate::text::{collapse_lines, is_text, same_text, trim, truncate};

verus! {

/// How many entries a feed keeps. Comfortably more than any tile is tall enough to show at once,
/// while the memory of a long-running session stays bounded.
pub const MAX_LINES: usize = 200;

// ---------------------------------------------------------------------------------------------
// What a transcript line holds
// ---------------------------------------------------------------------------------------------

/// The arguments of a tool call that its summary can show.
#[derive(Debug)]
pub struct ToolInput {
    pub description: Option<String>,
    pub command: Option<String>,
    pub file_path: Option<String>,
    pub pattern: Option<String>,
}

/// The texts in a `ToolInput`.
pub struct ToolInputView {
    pub description: Option<Seq<char>>,
    pub command: Option<Seq<char>>,
    pub file_path: Option<Seq<char>>,
    pub pattern: Option<Seq<char>>,
}

impl View for ToolInput {
    type V = ToolInputView;

    open spec fn view(&self) -> ToolInputView {
        ToolInputView {
            description: crate::text::opt_text(self.description),
            command: crate::text::opt_text(self.command),
            file_path: crate::text::opt_text(self.file_path),
            pattern: crate::text::opt_text(self.pattern),
        }
    }
}

/// One block of an assistant message.
#[derive(Debug)]
pub enum Block {
    ToolUse { name: String, input: ToolInput },
    Text { text: String },
    /// Anything that the feed does not show.
    Other,
}

/// The texts in a `Block`.
pub enum BlockView {
    ToolUse { name: Seq<char>, input: ToolInputView },
    Text { text: Seq<char> },
    Other,
}

impl View for Block {
    type V = BlockView;

    open spec fn view(&self) -> BlockView {
        match self {
            Block::ToolUse { name, input } => BlockView::ToolUse { name: name@, input: input@ },
            Block::Text { text } => BlockView::Text { text: text@ },
            Block::Other => BlockView::Other,
        }
    }
}

/// The views of a list of blocks.
pub open spec fn block_views(blocks: Seq<Block>) -> Seq<BlockView> {
    blocks.map_values(|b: Block| b@)
}

/// The arguments of a tool call, out of its `input` value.
pub open spec fn tool_input(input: JsonTree) -> ToolInputView {
    ToolInputView {
        description: input.text_field("description"@),
        command: input.text_field("command"@),
        file_path: input.text_field("file_path"@),
        pattern: input.text_field("pattern"@),
    }
}

/// One block, out of an item of a message's `content`. A tool call may lack its name, which is
/// then empty, and its input, which then has no arguments; a text block must have its text.
pub open spec fn block_of(item: JsonTree) -> BlockView {
    if item.text_field("type"@) == Some("tool_use"@) {
        BlockView::ToolUse {
            name: match item.text_field("name"@) {
                Some(name) => name,
                None => Seq::empty(),
            },
            input: match item.field("input"@) {
                Some(input) => tool_input(input),
                None => tool_input(JsonTree::Null),
            },
        }
    } else if item.text_field("type"@) == Some("text"@) {
        match item.text_field("text"@) {
            Some(text) => BlockView::Text { text },
            None => BlockView::Other,
        }
    } else {
        BlockView::Other
    }
}

/// The blocks of a transcript entry: the items of `/message/content`, for an entry of type
/// `assistant`. Any other entry has none.
pub open spec fn entry_blocks(entry: JsonTree) -> Seq<BlockView> {
    if entry.text_field("type"@) == Some("assistant"@) {
        match entry.field("message"@) {
            Some(message) => match message.array_field("content"@) {
                Some(items) => items.map_values(|item: JsonTree| block_of(item)),
                None => Seq::empty(),
            },
            None => Seq::empty(),
        }
    } else {
        Seq::empty()
    }
}

/// The blocks of a transcript line. A line that is no JSON has none.
pub open spec fn line_blocks(line: Seq<char>) -> Seq<BlockView> {
    match crate::json::parsed_json(line) {
        Some(entry) => entry_blocks(entry),
        None => Seq::empty(),
    }
}

/// Reads the arguments of a tool call.
pub fn read_tool_input(input: &serde_json::Value) -> (r: ToolInput)
    ensures
        r@ == tool_input(crate::json::json_tree(*input)),
{
    ToolInput {
        description: text_field(input, "description"),
        command: text_field(input, "command"),
        file_path: text_field(input, "file_path"),
        pattern: text_field(input, "pattern"),
    }
}

/// Reads one block of a message.
pub fn read_block(item: &serde_json::Value) -> (r: Block)
    ensures
        r@ == block_of(crate::json::json_tree(*item)),
{
    let kind = text_field(item, "type");
    if is_text(&kind, "tool_use") {
        let name = match text_field(item, "name") {
            Some(name) => name,
            None => String::new(),
        };
        let input = match get_field(item, "input") {
            Some(input) => read_tool_input(input),
            None => ToolInput { description: None, command: None, file_path: None, pattern: None },
        };
        Block::ToolUse { name, input }
    } else if is_text(&kind, "text") {
        match text_field(item, "text") {
            Some(text) => Block::Text { text },
            None => Block::Other,
        }
    } else {
        Block::Other
    }
}

/// Reads the blocks of a transcript entry.
pub fn read_entry(entry: &serde_json::Value) -> (r: Vec<Block>)
    ensures
        block_views(r@) == entry_blocks(crate::json::json_tree(*entry)),
{
    let mut blocks: Vec<Block> = Vec::new();
    assert(block_views(blocks@) =~= Seq::<BlockView>::empty());
    if !is_text(&text_field(entry, "type"), "assistant") {
        return blocks;
    }
    let message = match get_field(entry, "message") {
        Some(message) => message,
        None => return blocks,
    };
    let items = match array_field(message, "content") {
        Some(items) => items,
        None => return blocks,
    };
    let ghost all = entry_blocks(crate::json::json_tree(*entry));
    for i in 0..items.len()
        invariant
            all.len() == items@.len(),
            forall|k: int|
                0 <= k < items@.len() ==> #[trigger] all[k] == block_of(
                    crate::json::json_tree(items@[k]),
                ),
            block_views(blocks@) == all.take(i as int),
    {
        let block = read_block(&items[i]);
        let ghost before = blocks@;
        blocks.push(block);
        assert(block_views(blocks@) =~= block_views(before).push(block@));
        assert(all.take(i as int).push(all[i as int]) =~= all.take(i + 1));
    }
    assert(all.take(all.len() as int) =~= all);
    blocks
}

// ---------------------------------------------------------------------------------------------
// What the feed shows of it
// ---------------------------------------------------------------------------------------------

/// The summary of a tool call.
pub open spec fn tool_summary(name: Seq<char>, input: ToolInputView) -> Seq<char> {
    if name == "Bash"@ {
        match (input.description, input.command) {
            (Some(s), _) => "Running: "@ + crate::text::truncated(s, 50),
            (None, Some(s)) => "Running: "@ + crate::text::truncated(s, 50),
            (None, None) => "Running a command"@,
        }
    } else if name == "Read"@ {
        match input.file_path {
            Some(p) => "Reading "@ + p,
            None => "Reading a file"@,
        }
    } else if name == "Edit"@ {
        match input.file_path {
            Some(p) => "Editing "@ + p,
            None => "Editing a file"@,
        }
    } else if name == "Write"@ {
        match input.file_path {
            Some(p) => "Writing "@ + p,
            None => "Writing a file"@,
        }
    } else if name == "Grep"@ {
        match input.pattern {
            Some(p) => "Searching for "@ + crate::text::truncated(p, 40),
            None => "Searching"@,
        }
    } else if name == "AskUserQuestion"@ {
        "Waiting for your answer"@
    } else if name == "Agent"@ {
        match input.description {
            Some(s) => crate::text::truncated(s, 60),
            None => "Running a subagent"@,
        }
    } else {
        "Running: "@ + name
    }
}

/// The feed entry for a block: always a single line.
pub open spec fn block_line(block: BlockView) -> Option<Seq<char>> {
    match block {
        BlockView::ToolUse { name, input } => Some(
            crate::text::one_line(tool_summary(name, input)),
        ),
        BlockView::Text { text } => Some(crate::text::one_line(crate::text::trimmed(text))),
        BlockView::Other => None,
    }
}

/// The feed entries for some blocks, in order.
pub open spec fn block_lines(blocks: Seq<BlockView>) -> Seq<Seq<char>>
    decreases blocks.len(),
{
    if blocks.len() == 0 {
        Seq::empty()
    } else {
        match block_line(blocks.last()) {
            Some(line) => block_lines(blocks.drop_last()).push(line),
            None => block_lines(blocks.drop_last()),
        }
    }
}

/// The feed entries for some transcript lines, in order.
pub open spec fn feed_of(lines: Seq<Seq<char>>) -> Seq<Seq<char>>
    decreases lines.len(),
{
    if lines.len() == 0 {
        Seq::empty()
    } else {
        feed_of(lines.drop_last()) + block_lines(line_blocks(lines.last()))
    }
}

/// The last `n` items of a sequence, or all where there are fewer.
pub open spec fn last_n<T>(s: Seq<T>, n: nat) -> Seq<T> {
    if s.len() <= n {
        s
    } else {
        s.skip(s.len() - n)
    }
}

/// A feed after some more entries: the oldest fall off once there are too many.
pub open spec fn extended(feed: Seq<Seq<char>>, more: Seq<Seq<char>>) -> Seq<Seq<char>> {
    last_n(feed + more, MAX_LINES as nat)
}

/// A prefix and a text in one.
fn prefixed(prefix: &str, s: &str) -> (r: String)
    ensures
        r@ == prefix@ + s@,
{
    let mut out = prefix.to_owned();
    out.append(s);
    out
}

/// Summarises a tool call in a few words.
pub fn describe_tool_use(name: &str, input: &ToolInput) -> (r: String)
    ensures
        r@ == tool_summary(name@, input@),
{
    if same_text(name, "Bash") {
        match (&input.description, &input.command) {
            (Some(s), _) => prefixed("Running: ", &truncate(s, 50)),
            (None, Some(s)) => prefixed("Running: ", &truncate(s, 50)),
            (None, None) => "Running a command".to_owned(),
        }
    } else if same_text(name, "Read") {
        match &input.file_path {
            Some(p) => prefixed("Reading ", p),
            None => "Reading a file".to_owned(),
        }
    } else if same_text(name, "Edit") {
        match &input.file_path {
            Some(p) => prefixed("Editing ", p),
            None => "Editing a file".to_owned(),
        }
    } else if same_text(name, "Write") {
        match &input.file_path {
            Some(p) => prefixed("Writing ", p),
            None => "Writing a file".to_owned(),
        }
    } else if same_text(name, "Grep") {
        match &input.pattern {
            Some(p) => prefixed("Searching for ", &truncate(p, 40)),
            None => "Searching".to_owned(),
        }
    } else if same_text(name, "AskUserQuestion") {
        "Waiting for your answer".to_owned()
    } else if same_text(name, "Agent") {
        match &input.description {
            Some(s) => truncate(s, 60),
            None => "Running a subagent".to_owned(),
        }
    } else {
        prefixed("Running: ", name)
    }
}

/// A live feed of a session's recent activity, oldest entry first. It is fed transcript lines as
/// they arrive, rather than the whole transcript again each time, and keeps only the most recent
/// entries.
#[derive(Debug)]
pub struct ActivityState {
    lines: VecDeque<String>,
}

impl View for ActivityState {
    type V = Seq<Seq<char>>;

    closed spec fn view(&self) -> Seq<Seq<char>> {
        crate::text::texts(self.lines@)
    }
}

impl Default for ActivityState {
    /// An empty feed.
    fn default() -> (r: Self)
        ensures
            r@ == Seq::<Seq<char>>::empty(),
            r.wf(),
    {
        let r = ActivityState { lines: VecDeque::new() };
        assert(r@ =~= Seq::<Seq<char>>::empty());
        r
    }
}

impl ActivityState {
    /// A feed never holds more entries than it keeps, and each entry is a single line.
    pub open spec fn wf(&self) -> bool {
        well_formed(self@)
    }

    /// Incorporates newly appended transcript lines. Lines already seen must not be passed again.
    pub fn update(&mut self, new_lines: &[String])
        requires
            old(self).wf(),
        ensures
            final(self).wf(),
            final(self)@ == extended(old(self)@, feed_of(crate::text::texts(new_lines@))),
    {
        let ghost all = crate::text::texts(new_lines@);
        assert(all.take(0) =~= Seq::<Seq<char>>::empty());
        assert(self@ + feed_of(all.take(0)) =~= self@);
        for i in 0..new_lines.len()
            invariant
                self.wf(),
                all == crate::text::texts(new_lines@),
                self@ == extended(old(self)@, feed_of(all.take(i as int))),
        {
            let ghost before = all.take(i as int);
            assert(all.take(i + 1).drop_last() =~= before);
            assert(all.take(i + 1).last() == new_lines@[i as int]@);
            match parse_json(&new_lines[i]) {
                Some(entry) => {
                    self.record(&read_entry(&entry));
                },
                None => {
                    proof {
                        lemma_extended_by_nothing(self@);
                    }
                },
            }
            proof {
                lemma_extended_twice(
                    old(self)@,
                    feed_of(before),
                    block_lines(line_blocks(new_lines@[i as int]@)),
                );
            }
        }
        assert(all.take(all.len() as int) =~= all);
    }

    /// Adds the entries for the blocks of one message.
    pub fn record(&mut self, blocks: &[Block])
        requires
            old(self).wf(),
        ensures
            final(self).wf(),
            final(self)@ == extended(old(self)@, block_lines(block_views(blocks@))),
    {
        let ghost all = block_views(blocks@);
        assert(all.take(0) =~= Seq::<BlockView>::empty());
        proof {
            lemma_extended_by_nothing(self@);
        }
        for i in 0..blocks.len()
            invariant
                self.wf(),
                all == block_views(blocks@),
                self@ == extended(old(self)@, block_lines(all.take(i as int))),
        {
            let ghost before = all.take(i as int);
            let ghost feed = self@;
            assert(all.take(i + 1).drop_last() =~= before);
            assert(all.take(i + 1).last() == blocks@[i as int]@);
            match &blocks[i] {
                Block::ToolUse { name, input } => {
                    self.push(describe_tool_use(name, input));
                },
                Block::Text { text } => {
                    self.push(trim(text));
                },
                Block::Other => {},
            }
            proof {
                if let Some(line) = block_line(blocks@[i as int]@) {
                    lemma_extended_twice(old(self)@, block_lines(before), seq![line]);
                    assert(block_lines(before) + seq![line] =~= block_lines(before).push(line));
                    assert(feed + seq![line] =~= feed.push(line));
                }
            }
        }
        assert(all.take(all.len() as int) =~= all);
    }

    /// Adds one entry, with any line breaks in it collapsed: an entry is one row of a tile.
    fn push(&mut self, line: String)
        requires
            old(self).wf(),
        ensures
            final(self).wf(),
            final(self)@ == last_n(
                old(self)@.push(crate::text::one_line(line@)),
                MAX_LINES as nat,
            ),
    {
        let entry = collapse_lines(&line);
        self.lines.push_back(entry);
        assert(self@ =~= old(self)@.push(entry@));
        if self.lines.len() > MAX_LINES {
            let ghost full = self@;
            self.lines.pop_front();
            assert(self@ =~= full.skip(1));
        }
    }

    /// Recent activity, oldest first. The caller decides how many, from the end, fit the space it
    /// has.
    pub fn recent_lines(&self) -> (r: Vec<String>)
        ensures
            crate::text::texts(r@) == shown(self@),
    {
        let mut out: Vec<String> = Vec::new();
        if self.lines.len() == 0 {
            out.push("Idle".to_owned());
            assert(crate::text::texts(out@) =~= seq!["Idle"@]);
        } else {
            for i in 0..self.lines.len()
                invariant
                    crate::text::texts(out@) == self@.take(i as int),
            {
                let ghost before = out@;
                let line = self.lines[i].clone();
                out.push(line);
                assert(crate::text::texts(out@) =~= crate::text::texts(before).push(line@));
                assert(self@.take(i as int).push(self@[i as int]) =~= self@.take(i + 1));
            }
            assert(self@.take(self@.len() as int) =~= self@);
        }
        out
    }
}

/// What a tile shows of a feed: its entries, or that the session is idle where there are none.
pub open spec fn shown(feed: Seq<Seq<char>>) -> Seq<Seq<char>> {
    if feed.len() == 0 {
        seq!["Idle"@]
    } else {
        feed
    }
}

/// The shape that every feed keeps: bounded, and made of single lines.
pub open spec fn well_formed(feed: Seq<Seq<char>>) -> bool {
    &&& feed.len() <= MAX_LINES
    &&& forall|i: int| 0 <= i < feed.len() ==> crate::text::is_one_line(#[trigger] feed[i])
}

/// Lines that arrive in two batches leave the same feed as the same lines in one.
pub proof fn law_batches(feed: Seq<Seq<char>>, a: Seq<Seq<char>>, b: Seq<Seq<char>>)
    ensures
        extended(extended(feed, feed_of(a)), feed_of(b)) == extended(feed, feed_of(a + b)),
{
    law_feed_in_order(a, b);
    lemma_extended_twice(feed, feed_of(a), feed_of(b));
}

/// Entries stand in the order of the lines that they come from.
pub proof fn law_feed_in_order(a: Seq<Seq<char>>, b: Seq<Seq<char>>)
    ensures
        feed_of(a + b) == feed_of(a) + feed_of(b),
    decreases b.len(),
{
    if b.len() == 0 {
        assert(a + b =~= a);
        assert(feed_of(a) + feed_of(b) =~= feed_of(a));
    } else {
        law_feed_in_order(a, b.drop_last());
        assert((a + b).drop_last() =~= a + b.drop_last());
        let last = block_lines(line_blocks(b.last()));
        assert(feed_of(a) + feed_of(b.drop_last()) + last =~= feed_of(a) + (feed_of(
            b.drop_last(),
        ) + last));
    }
}

/// A line that is no JSON, or whose entry does not come from the assistant, leaves a feed as it
/// is.
pub proof fn law_other_lines_are_skipped(feed: Seq<Seq<char>>, line: Seq<char>)
    requires
        well_formed(feed),
        match crate::json::parsed_json(line) {
            Some(entry) => entry.text_field("type"@) != Some("assistant"@),
            None => true,
        },
    ensures
        extended(feed, feed_of(seq![line])) == feed,
{
    assert(seq![line].drop_last() =~= Seq::<Seq<char>>::empty());
    assert(line_blocks(line) =~= Seq::<BlockView>::empty());
    assert(feed_of(Seq::<Seq<char>>::empty()) =~= Seq::<Seq<char>>::empty());
    assert(feed_of(seq![line]) =~= Seq::<Seq<char>>::empty());
    lemma_extended_by_nothing(feed);
}

/// Once as many new entries have come as a feed keeps, nothing of the old ones is left: the feed
/// is the most recent of the new ones.
pub proof fn law_old_entries_fall_off(feed: Seq<Seq<char>>, more: Seq<Seq<char>>)
    requires
        more.len() >= MAX_LINES,
    ensures
        extended(feed, more) == last_n(more, MAX_LINES as nat),
        extended(feed, more).len() == MAX_LINES,
{
    assert(extended(feed, more) =~= last_n(more, MAX_LINES as nat));
}

/// Every feed entry is a single line, whatever the transcript holds.
pub proof fn law_entries_are_single_lines(lines: Seq<Seq<char>>)
    ensures
        forall|i: int|
            0 <= i < feed_of(lines).len() ==> crate::text::is_one_line(
                #[trigger] feed_of(lines)[i],
            ),
    decreases lines.len(),
{
    if lines.len() > 0 {
        law_entries_are_single_lines(lines.drop_last());
        lemma_block_lines_are_single(line_blocks(lines.last()));
        let before = feed_of(lines.drop_last());
        let last = block_lines(line_blocks(lines.last()));
        assert forall|i: int| 0 <= i < feed_of(lines).len() implies crate::text::is_one_line(
            #[trigger] feed_of(lines)[i],
        ) by {
            if i < before.len() {
                assert(feed_of(lines)[i] == before[i]);
            } else {
                assert(feed_of(lines)[i] == last[i - before.len()]);
            }
        }
    }
}

proof fn lemma_block_lines_are_single(blocks: Seq<BlockView>)
    ensures
        forall|i: int|
            0 <= i < block_lines(blocks).len() ==> crate::text::is_one_line(
                #[trigger] block_lines(blocks)[i],
            ),
    decreases blocks.len(),
{
    if blocks.len() > 0 {
        lemma_block_lines_are_single(blocks.drop_last());
        let before = block_lines(blocks.drop_last());
        assert forall|i: int| 0 <= i < block_lines(blocks).len() implies crate::text::is_one_line(
            #[trigger] block_lines(blocks)[i],
        ) by {
            if i < before.len() {
                assert(block_lines(blocks)[i] == before[i]);
            }
        }
    }
}

/// The words of the assistant are shown in full, however long: only the white space around them
/// goes, and a line break among them becomes a space.
pub proof fn law_text_is_not_truncated(text: Seq<char>)
    ensures
        block_line(BlockView::Text { text }) is Some,
        block_line(BlockView::Text { text })->0.len() == crate::text::trimmed(text).len(),
        forall|i: int|
            0 <= i < crate::text::trimmed(text).len() ==> #[trigger] block_line(
                BlockView::Text { text },
            )->0[i] == crate::text::unbroken(crate::text::trimmed(text)[i]),
{
}

proof fn lemma_extended_by_nothing(feed: Seq<Seq<char>>)
    requires
        feed.len() <= MAX_LINES,
    ensures
        extended(feed, Seq::empty()) == feed,
{
    assert(feed + Seq::<Seq<char>>::empty() =~= feed);
}

proof fn lemma_extended_twice(feed: Seq<Seq<char>>, a: Seq<Seq<char>>, b: Seq<Seq<char>>)
    ensures
        extended(extended(feed, a), b) == extended(feed, a + b),
{
    assert(feed + a + b =~= feed + (a + b));
    assert(extended(extended(feed, a), b) =~= extended(feed, a + b));
}

// ---------------------------------------------------------------------------------------------
// From the transcript's JSON to what is shown
// ---------------------------------------------------------------------------------------------

/// Whether a line is a message of the assistant with some items as its content.
pub open spec fn is_message(line: Seq<char>, items: Seq<JsonTree>) -> bool {
    match crate::json::parsed_json(line) {
        Some(entry) => {
            &&& entry.field("type"@) == Some(JsonTree::Text("assistant"@))
            &&& entry.field("message"@) is Some
            &&& entry.field("message"@)->0.field("content"@) == Some(JsonTree::Array(items))
        },
        None => false,
    }
}

/// Whether an entry shows a text behind a prefix, in one line: at most `max` characters of it, and
/// an ellipsis where there are more.
pub open spec fn shows(entry: Seq<char>, prefix: Seq<char>, text: Seq<char>, max: nat) -> bool {
    let kept: int = if text.len() <= max {
        text.len() as int
    } else {
        max as int
    };
    &&& entry.len() == prefix.len() + kept + if text.len() > max {
        1int
    } else {
        0int
    }
    &&& entry.take(prefix.len() as int) == prefix
    &&& forall|i: int|
        0 <= i < kept ==> #[trigger] entry[prefix.len() + i] == if text[i] == '\n' || text[i]
            == '\r' {
            ' '
        } else {
            text[i]
        }
    &&& text.len() > max ==> entry.last() == '\u{2026}'
}

/// A message whose content is one item longer shows what the shorter one shows and, behind it, what
/// the item shows. Without items it shows nothing.
pub proof fn law_items_in_order(
    line: Seq<char>,
    longer: Seq<char>,
    items: Seq<JsonTree>,
    item: JsonTree,
)
    requires
        is_message(line, items),
        is_message(longer, items.push(item)),
    ensures
        items.len() == 0 ==> feed_of(seq![line]).len() == 0,
        feed_of(seq![longer]) == match block_line(block_of(item)) {
            Some(entry) => feed_of(seq![line]).push(entry),
            None => feed_of(seq![line]),
        },
{
    lemma_message_feed(line, items);
    lemma_message_feed(longer, items.push(item));
    let blocks = items.map_values(|item: JsonTree| block_of(item));
    let more = items.push(item).map_values(|item: JsonTree| block_of(item));
    assert(more.drop_last() =~= blocks);
    assert(more.last() == block_of(item));
}

/// A text item shows exactly one entry: its text in full, however long, without the white space
/// around it and with line breaks as spaces.
pub proof fn law_text_items(
    item: JsonTree,
    before: Seq<char>,
    text: Seq<char>,
    after: Seq<char>,
)
    requires
        item.field("type"@) == Some(JsonTree::Text("text"@)),
        item.field("text"@) == Some(JsonTree::Text(before + text + after)),
        forall|i: int| 0 <= i < before.len() ==> crate::text::is_white(#[trigger] before[i]),
        forall|i: int| 0 <= i < after.len() ==> crate::text::is_white(#[trigger] after[i]),
        text.len() > 0 ==> !crate::text::is_white(text.first()) && !crate::text::is_white(
            text.last(),
        ),
    ensures
        block_line(block_of(item)) is Some,
        shows(block_line(block_of(item))->0, Seq::empty(), text, text.len()),
{
    lemma_item_types();
    crate::text::law_trimmed(before, text, after);
    crate::text::law_one_line(text);
    let entry = block_line(block_of(item))->0;
    assert(entry.take(0) =~= Seq::<char>::empty());
}

/// A tool call shows exactly one entry, whatever the tool and its arguments.
pub proof fn law_tool_items(item: JsonTree)
    requires
        item.field("type"@) == Some(JsonTree::Text("tool_use"@)),
    ensures
        block_line(block_of(item)) is Some,
{
}

/// Any other item shows nothing.
pub proof fn law_other_items(item: JsonTree)
    requires
        item.field("type"@) != Some(JsonTree::Text("tool_use"@)),
        item.field("type"@) != Some(JsonTree::Text("text"@)) || !(match item.field("text"@) {
            Some(value) => value is Text,
            None => false,
        }),
    ensures
        block_line(block_of(item)) is None,
{
}

/// A shell command is shown by its description, or else by itself, cut to fifty characters.
pub proof fn law_bash_items(item: JsonTree, input: JsonTree)
    requires
        item.field("type"@) == Some(JsonTree::Text("tool_use"@)),
        item.field("name"@) == Some(JsonTree::Text("Bash"@)),
        item.field("input"@) == Some(input),
    ensures
        match (input.field("description"@), input.field("command"@)) {
            (Some(JsonTree::Text(text)), _) => shows(
                block_line(block_of(item))->0,
                "Running: "@,
                text,
                50,
            ),
            (_, Some(JsonTree::Text(text))) => shows(
                block_line(block_of(item))->0,
                "Running: "@,
                text,
                50,
            ),
            _ => block_line(block_of(item))->0 == "Running a command"@,
        },
{
    lemma_item_types();
    lemma_fixed_lines();
    match (input.text_field("description"@), input.text_field("command"@)) {
        (Some(text), _) => {
            lemma_shown("Running: "@, text, 50);
        },
        (None, Some(text)) => {
            lemma_shown("Running: "@, text, 50);
        },
        (None, None) => {},
    }
}

/// Reading, editing and writing are shown with the path of the file, in full.
pub proof fn law_file_items(item: JsonTree, input: JsonTree)
    requires
        item.field("type"@) == Some(JsonTree::Text("tool_use"@)),
        item.field("input"@) == Some(input),
    ensures
        item.field("name"@) == Some(JsonTree::Text("Read"@)) ==> match input.field("file_path"@) {
            Some(JsonTree::Text(path)) => shows(
                block_line(block_of(item))->0,
                "Reading "@,
                path,
                path.len(),
            ),
            _ => block_line(block_of(item))->0 == "Reading a file"@,
        },
        item.field("name"@) == Some(JsonTree::Text("Edit"@)) ==> match input.field("file_path"@) {
            Some(JsonTree::Text(path)) => shows(
                block_line(block_of(item))->0,
                "Editing "@,
                path,
                path.len(),
            ),
            _ => block_line(block_of(item))->0 == "Editing a file"@,
        },
        item.field("name"@) == Some(JsonTree::Text("Write"@)) ==> match input.field("file_path"@) {
            Some(JsonTree::Text(path)) => shows(
                block_line(block_of(item))->0,
                "Writing "@,
                path,
                path.len(),
            ),
            _ => block_line(block_of(item))->0 == "Writing a file"@,
        },
{
    lemma_tool_names();
    lemma_fixed_lines();
    if let Some(path) = input.text_field("file_path"@) {
        lemma_shown("Reading "@, path, path.len());
        lemma_shown("Editing "@, path, path.len());
        lemma_shown("Writing "@, path, path.len());
    }
}

/// A search is shown with its pattern, cut to forty characters, a subagent by its description, cut
/// to sixty, and a question always in the same words.
pub proof fn law_search_agent_and_question_items(item: JsonTree, input: JsonTree)
    requires
        item.field("type"@) == Some(JsonTree::Text("tool_use"@)),
        item.field("input"@) == Some(input),
    ensures
        item.field("name"@) == Some(JsonTree::Text("Grep"@)) ==> match input.field("pattern"@) {
            Some(JsonTree::Text(pattern)) => shows(
                block_line(block_of(item))->0,
                "Searching for "@,
                pattern,
                40,
            ),
            _ => block_line(block_of(item))->0 == "Searching"@,
        },
        item.field("name"@) == Some(JsonTree::Text("Agent"@)) ==> match input.field(
            "description"@,
        ) {
            Some(JsonTree::Text(text)) => shows(
                block_line(block_of(item))->0,
                Seq::empty(),
                text,
                60,
            ),
            _ => block_line(block_of(item))->0 == "Running a subagent"@,
        },
        item.field("name"@) == Some(JsonTree::Text("AskUserQuestion"@)) ==> block_line(
            block_of(item),
        )->0 == "Waiting for your answer"@,
{
    lemma_tool_names();
    lemma_fixed_lines();
    if let Some(pattern) = input.text_field("pattern"@) {
        lemma_shown("Searching for "@, pattern, 40);
    }
    if let Some(text) = input.text_field("description"@) {
        lemma_shown(Seq::empty(), text, 60);
        assert(Seq::<char>::empty() + crate::text::truncated(text, 60)
            =~= crate::text::truncated(text, 60));
    }
}

/// Any other tool is shown by its name, and one without a name as running nothing named.
pub proof fn law_other_tool_items(item: JsonTree, name: Seq<char>)
    requires
        item.field("type"@) == Some(JsonTree::Text("tool_use"@)),
        match item.field("name"@) {
            Some(JsonTree::Text(given)) => given == name,
            _ => name.len() == 0,
        },
        name != "Bash"@,
        name != "Read"@,
        name != "Edit"@,
        name != "Write"@,
        name != "Grep"@,
        name != "AskUserQuestion"@,
        name != "Agent"@,
    ensures
        shows(block_line(block_of(item))->0, "Running: "@, name, name.len()),
{
    lemma_fixed_lines();
    lemma_shown("Running: "@, name, name.len());
    match item.text_field("name"@) {
        Some(given) => {},
        None => {
            assert(name =~= Seq::<char>::empty());
        },
    }
}

/// A tool call without input is shown as one whose input has no arguments.
pub proof fn law_tool_without_input(item: JsonTree, empty: JsonTree)
    requires
        item.field("type"@) == Some(JsonTree::Text("tool_use"@)),
        empty.field("type"@) == Some(JsonTree::Text("tool_use"@)),
        item.field("name"@) == empty.field("name"@),
        item.field("input"@) is None,
        empty.field("input"@) == Some(JsonTree::Object(Map::empty())),
    ensures
        block_line(block_of(item)) == block_line(block_of(empty)),
{
    assert(tool_input(JsonTree::Null) =~= tool_input(JsonTree::Object(Map::empty())));
}

/// A line of the assistant whose content is no array shows nothing.
pub proof fn law_no_content(line: Seq<char>, entry: JsonTree)
    requires
        crate::json::parsed_json(line) == Some(entry),
        match entry.field("message"@) {
            Some(message) => match message.field("content"@) {
                Some(content) => !(content is Array),
                None => true,
            },
            None => true,
        },
    ensures
        feed_of(seq![line]).len() == 0,
{
    assert(seq![line].drop_last() =~= Seq::<Seq<char>>::empty());
    assert(line_blocks(line) =~= Seq::<BlockView>::empty());
    assert(feed_of(Seq::<Seq<char>>::empty()) =~= Seq::<Seq<char>>::empty());
}

/// A feed is the end of everything that ever came in: all of it while that is at most two hundred
/// entries, and the last two hundred from then on.
pub proof fn law_most_recent_entries(feed: Seq<Seq<char>>, more: Seq<Seq<char>>)
    ensures
        feed.len() + more.len() <= 200 ==> extended(feed, more) == feed + more,
        feed.len() + more.len() > 200 ==> extended(feed, more).len() == 200 && extended(feed, more)
            == (feed + more).skip(feed.len() + more.len() - 200),
{
}

/// A tile shows the feed as it is, and a single word while there is nothing in it.
pub proof fn law_shown(feed: Seq<Seq<char>>)
    ensures
        feed.len() > 0 ==> shown(feed) == feed,
        feed.len() == 0 ==> shown(feed) == seq!["Idle"@],
{
}

/// What a message shows is what its items show.
proof fn lemma_message_feed(line: Seq<char>, items: Seq<JsonTree>)
    requires
        is_message(line, items),
    ensures
        feed_of(seq![line]) == block_lines(items.map_values(|item: JsonTree| block_of(item))),
{
    let blocks = items.map_values(|item: JsonTree| block_of(item));
    assert(seq![line].drop_last() =~= Seq::<Seq<char>>::empty());
    assert(feed_of(Seq::<Seq<char>>::empty()) =~= Seq::<Seq<char>>::empty());
    assert(line_blocks(line) =~= blocks);
    assert(Seq::<Seq<char>>::empty() + block_lines(blocks) =~= block_lines(blocks));
}

/// A prefix in one line and a shortened text show the text.
proof fn lemma_shown(prefix: Seq<char>, text: Seq<char>, max: nat)
    requires
        crate::text::is_one_line(prefix),
    ensures
        shows(
            crate::text::one_line(prefix + crate::text::truncated(text, max)),
            prefix,
            text,
            max,
        ),
        text.len() <= max ==> crate::text::truncated(text, max) == text,
{
    crate::text::law_truncated(text, max);
    let cut = crate::text::truncated(text, max);
    let whole = prefix + cut;
    crate::text::law_one_line(whole);
    let entry = crate::text::one_line(whole);
    assert(entry.take(prefix.len() as int) =~= prefix);
    let kept: int = if text.len() <= max {
        text.len() as int
    } else {
        max as int
    };
    assert forall|i: int| 0 <= i < kept implies #[trigger] entry[prefix.len() + i] == (if text[i]
        == '\n' || text[i] == '\r' {
        ' '
    } else {
        text[i]
    }) by {
        assert(whole[prefix.len() + i] == text[i]);
    }
    if text.len() > max {
        assert(entry.last() == entry[prefix.len() + max as int]);
        assert(whole[prefix.len() + max as int] == crate::text::ELLIPSIS);
    }
}

/// The two types of items have different names.
proof fn lemma_item_types()
    ensures
        "tool_use"@ != "text"@,
{
    reveal_strlit("tool_use");
    reveal_strlit("text");
    assert("tool_use"@.len() != "text"@.len());
}

/// The names of the tools are all different.
proof fn lemma_tool_names()
    ensures
        "Read"@ != "Bash"@,
        "Edit"@ != "Bash"@ && "Edit"@ != "Read"@,
        "Write"@ != "Bash"@ && "Write"@ != "Read"@ && "Write"@ != "Edit"@,
        "Grep"@ != "Bash"@ && "Grep"@ != "Read"@ && "Grep"@ != "Edit"@ && "Grep"@ != "Write"@,
        "AskUserQuestion"@ != "Bash"@ && "AskUserQuestion"@ != "Read"@ && "AskUserQuestion"@
            != "Edit"@ && "AskUserQuestion"@ != "Write"@ && "AskUserQuestion"@ != "Grep"@,
        "Agent"@ != "Bash"@ && "Agent"@ != "Read"@ && "Agent"@ != "Edit"@ && "Agent"@ != "Write"@
            && "Agent"@ != "Grep"@ && "Agent"@ != "AskUserQuestion"@,
{
    reveal_strlit("Bash");
    reveal_strlit("Read");
    reveal_strlit("Edit");
    reveal_strlit("Write");
    reveal_strlit("Grep");
    reveal_strlit("AskUserQuestion");
    reveal_strlit("Agent");
    assert("Bash"@[0] == 'B');
    assert("Read"@[0] == 'R');
    assert("Edit"@[0] == 'E');
    assert("Write"@[0] == 'W');
    assert("Grep"@[0] == 'G');
    assert("AskUserQuestion"@.len() == 15 && "AskUserQuestion"@[0] == 'A');
    assert("Agent"@.len() == 5 && "Agent"@[0] == 'A');
}

/// None of the fixed texts holds a line break.
proof fn lemma_fixed_lines()
    ensures
        crate::text::is_one_line("Running: "@),
        crate::text::is_one_line("Reading "@),
        crate::text::is_one_line("Editing "@),
        crate::text::is_one_line("Writing "@),
        crate::text::is_one_line("Searching for "@),
        crate::text::one_line("Running a command"@) == "Running a command"@,
        crate::text::one_line("Reading a file"@) == "Reading a file"@,
        crate::text::one_line("Editing a file"@) == "Editing a file"@,
        crate::text::one_line("Writing a file"@) == "Writing a file"@,
        crate::text::one_line("Searching"@) == "Searching"@,
        crate::text::one_line("Running a subagent"@) == "Running a subagent"@,
        crate::text::one_line("Waiting for your answer"@) == "Waiting for your answer"@,
{
    reveal_strlit("Running: ");
    reveal_strlit("Reading ");
    reveal_strlit("Editing ");
    reveal_strlit("Writing ");
    reveal_strlit("Searching for ");
    reveal_strlit("Running a command");
    reveal_strlit("Reading a file");
    reveal_strlit("Editing a file");
    reveal_strlit("Writing a file");
    reveal_strlit("Searching");
    reveal_strlit("Running a subagent");
    reveal_strlit("Waiting for your answer");
    crate::text::law_one_line("Running a command"@);
    crate::text::law_one_line("Reading a file"@);
    crate::text::law_one_line("Editing a file"@);
    crate::text::law_one_line("Writing a file"@);
    crate::text::law_one_line("Searching"@);
    crate::text::law_one_line("Running a subagent"@);
    crate::text::law_one_line("Waiting for your answer"@);
}

} // verus!
