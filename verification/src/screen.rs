//! The viewport: wrapped lines, scroll position, search query and status slot.

use vstd::prelude::*;
use vstd::string::StringExecFns;
use crate::search::{
    contains_query, find_line_after, find_line_before, hit_after, hit_before, lemma_hit_after,
    lemma_hit_before, segments, split_segments, Segment, SegmentView,
};
use crate::wrap::{display_lines, LineBreaker};

verus! {

/// How far a scroll command moves.
#[derive(Debug, Clone, Copy, PartialEq, Eq)]
pub enum MoveUnit {
    /// One line.
    Line,
    /// Half the screen's height, rounded down.
    HalfPage,
    /// All the way to the first or the last page.
    Entire,
}

/// The status message after a search without a query.
pub open spec fn query_not_set() -> Seq<char> {
    "search query is not set"@
}

/// The status message after a search that found no line.
pub open spec fn not_found(query: Seq<char>) -> Seq<char> {
    "failed to find `"@ + query + "`"@
}

/// What one drawing puts on the terminal.
#[derive(Debug, PartialEq, Eq)]
pub struct Frame {
    /// The visible display lines from the top row down, each as segments.
    pub rows: Vec<Vec<Segment>>,
    /// The row of the status text: the one below the content rows.
    pub status_row: usize,
    /// The text of the status row.
    pub status: String,
}

/// What a [`Frame`] stands for.
pub struct FrameView {
    pub rows: Seq<Seq<SegmentView>>,
    pub status_row: nat,
    pub status: Seq<char>,
}

impl View for Frame {
    type V = FrameView;

    open spec fn view(&self) -> FrameView {
        FrameView {
            rows: self.rows.deep_view(),
            status_row: self.status_row as nat,
            status: self.status@,
        }
    }
}

/// The state of a [`Screen`], as contracts speak of it.
pub struct ScreenView {
    /// Columns of the terminal.
    pub width: nat,
    /// Rows of the terminal, the status row included.
    pub height: nat,
    /// The whole input.
    pub contents: Seq<char>,
    /// The input as display lines.
    pub lines: Seq<Seq<char>>,
    /// Index of the display line shown in the first row.
    pub top: nat,
    /// Whether keystrokes edit the query.
    pub query_mode: bool,
    /// The search query; empty when nothing is searched for.
    pub query: Seq<char>,
    /// A message that replaces the query in the status row for one drawing.
    pub message: Option<Seq<char>>,
    /// Whether something changed that the terminal does not show yet.
    pub needs_update: bool,
}

impl ScreenView {
    /// Rows that show text: all but the status row.
    pub open spec fn content_rows(self) -> nat {
        if self.height >= 1 {
            (self.height - 1) as nat
        } else {
            0
        }
    }

    /// The greatest scroll offset: the one that shows the last page.
    pub open spec fn max_top(self) -> nat {
        if self.lines.len() >= self.content_rows() {
            (self.lines.len() - self.content_rows()) as nat
        } else {
            0
        }
    }

    /// The lines are the contents wrapped at the width, and the scroll offset
    /// lies within them.
    pub open spec fn wf(self) -> bool {
        &&& self.lines == display_lines(self.contents, self.width)
        &&& self.top <= self.max_top()
    }

    /// A screen that has just been given its contents.
    pub open spec fn initial(width: nat, height: nat, contents: Seq<char>) -> Self {
        ScreenView {
            width,
            height,
            contents,
            lines: display_lines(contents, width),
            top: 0,
            query_mode: false,
            query: Seq::empty(),
            message: None,
            needs_update: true,
        }
    }

    /// The lines wrapped anew at the current width.
    pub open spec fn rewrapped(self) -> Self {
        ScreenView {
            lines: display_lines(self.contents, self.width),
            needs_update: true,
            ..self
        }
    }

    /// The scroll offset brought back into range.
    pub open spec fn clamped(self) -> Self {
        ScreenView {
            top: if self.top <= self.max_top() {
                self.top
            } else {
                self.max_top()
            },
            needs_update: true,
            ..self
        }
    }

    /// The screen after a change of size. Nothing changes where the size is
    /// the old one; otherwise the lines are wrapped anew at the new width and
    /// the scroll offset is brought back into range.
    pub open spec fn resized(self, width: nat, height: nat) -> Self {
        if self.width == width && self.height == height {
            self
        } else {
            (ScreenView { width, height, ..self }).rewrapped().clamped()
        }
    }

    /// The screen scrolled by `delta` lines, down where `delta` is positive:
    /// the offset moves by `delta` and stops at the first and at the last page.
    pub open spec fn scrolled(self, delta: int) -> Self {
        ScreenView {
            top: if self.top + delta < 0 {
                0
            } else if self.top + delta > self.max_top() {
                self.max_top()
            } else {
                (self.top + delta) as nat
            },
            needs_update: true,
            ..self
        }
    }

    /// Half the screen's height, rounded down.
    pub open spec fn half_page(self) -> nat {
        self.height / 2
    }

    /// The screen scrolled up by `unit`.
    pub open spec fn moved_up(self, unit: MoveUnit) -> Self {
        match unit {
            MoveUnit::Line => self.scrolled(-1),
            MoveUnit::HalfPage => self.scrolled(-(self.half_page() as int)),
            MoveUnit::Entire => ScreenView { top: 0, needs_update: true, ..self },
        }
    }

    /// The screen scrolled down by `unit`.
    pub open spec fn moved_down(self, unit: MoveUnit) -> Self {
        match unit {
            MoveUnit::Line => self.scrolled(1),
            MoveUnit::HalfPage => self.scrolled(self.half_page() as int),
            MoveUnit::Entire => ScreenView { top: self.max_top(), needs_update: true, ..self },
        }
    }

    /// The screen after a search forward. Without a query only the status
    /// message is set. Otherwise the first line below the top line that
    /// contains the query becomes the top line, as far as the last page lets
    /// it; where there is none, the status message says so and the offset
    /// stays.
    pub open spec fn found_next(self) -> Self {
        if self.query.len() == 0 {
            ScreenView { message: Some(query_not_set()), needs_update: true, ..self }
        } else {
            match hit_after(self.lines, self.query, self.top as int + 1) {
                Some(at) => (ScreenView { top: at as nat, ..self }).clamped(),
                None => ScreenView {
                    message: Some(not_found(self.query)),
                    needs_update: true,
                    ..self
                },
            }
        }
    }

    /// The screen after a search backward: as [`Self::found_next`], with the
    /// nearest line above the top line that contains the query.
    pub open spec fn found_prev(self) -> Self {
        if self.query.len() == 0 {
            ScreenView { message: Some(query_not_set()), needs_update: true, ..self }
        } else {
            match hit_before(self.lines, self.query, self.top as int) {
                Some(at) => (ScreenView { top: at as nat, ..self }).clamped(),
                None => ScreenView {
                    message: Some(not_found(self.query)),
                    needs_update: true,
                    ..self
                },
            }
        }
    }

    /// Index behind the last visible line.
    pub open spec fn window_end(self) -> nat {
        if self.top + self.content_rows() <= self.lines.len() {
            self.top + self.content_rows()
        } else {
            self.lines.len()
        }
    }

    /// The text of the status row: `/` while the query is edited and `:`
    /// otherwise, then the status message if there is one, else the query.
    pub open spec fn status_line(self) -> Seq<char> {
        seq![if self.query_mode { '/' } else { ':' }] + match self.message {
            Some(m) => m,
            None => self.query,
        }
    }

    /// Number of lines that are visible.
    pub open spec fn visible_rows(self) -> nat {
        if self.window_end() >= self.top {
            (self.window_end() - self.top) as nat
        } else {
            0
        }
    }

    /// What is drawn: the visible lines, split at the occurrences of the
    /// query, and the status text in the row below the content rows.
    pub open spec fn frame(self) -> FrameView {
        FrameView {
            rows: Seq::new(
                self.visible_rows(),
                |k: int| segments(self.lines[self.top + k], self.query),
            ),
            status_row: self.content_rows(),
            status: self.status_line(),
        }
    }

    /// The screen after a drawing: the status message is used up and nothing
    /// is left to draw.
    pub open spec fn drawn(self) -> Self {
        ScreenView { message: None, needs_update: false, ..self }
    }
}

/// The viewport of the pager.
pub struct Screen {
    width: usize,
    height: usize,
    contents: String,
    lines: Vec<String>,
    current_top: usize,
    query_mode: bool,
    query: String,
    message: Option<String>,
    needs_update: bool,
}

impl View for Screen {
    type V = ScreenView;

    closed spec fn view(&self) -> ScreenView {
        ScreenView {
            width: self.width as nat,
            height: self.height as nat,
            contents: self.contents@,
            lines: self.lines.deep_view(),
            top: self.current_top as nat,
            query_mode: self.query_mode,
            query: self.query@,
            message: match self.message {
                Some(m) => Some(m@),
                None => None,
            },
            needs_update: self.needs_update,
        }
    }
}

impl Screen {
    /// The screen's state is consistent: see [`ScreenView::wf`].
    pub open spec fn wf(&self) -> bool {
        self@.wf()
    }

    /// A screen of the given size that shows the start of `contents`.
    pub fn new(width: usize, height: usize, contents: String) -> (scr: Self)
        ensures
            scr@ == ScreenView::initial(width as nat, height as nat, contents@),
            scr.wf(),
    {
        let mut scr = Screen {
            width,
            height,
            contents,
            lines: Vec::new(),
            current_top: 0,
            query_mode: false,
            query: String::new(),
            message: None,
            needs_update: true,
        };
        scr.recalc_lines();
        scr
    }

    /// The search query.
    pub fn get_query(&self) -> (query: &str)
        ensures
            query@ == self@.query,
    {
        self.query.as_str()
    }

    /// The search query, to be edited in place. The screen counts as changed.
    pub fn get_query_mut(&mut self) -> (query: &mut String)
        ensures
            query@ == old(self)@.query,
            final(self)@ == (ScreenView {
                query: final(query)@,
                needs_update: true,
                ..old(self)@
            }),
            old(self).wf() ==> final(self).wf(),
    {
        self.needs_update = true;
        &mut self.query
    }

    /// Columns of the terminal.
    pub fn width(&self) -> (width: usize)
        ensures
            width == self@.width,
    {
        self.width
    }

    /// Rows of the terminal, the status row included.
    pub fn height(&self) -> (height: usize)
        ensures
            height == self@.height,
    {
        self.height
    }

    /// The display lines.
    pub fn lines(&self) -> (lines: &Vec<String>)
        ensures
            lines.deep_view() == self@.lines,
    {
        &self.lines
    }

    /// Index of the display line shown in the first row.
    pub fn current_top(&self) -> (top: usize)
        ensures
            top == self@.top,
    {
        self.current_top
    }

    /// The status message that the next drawing shows in place of the query.
    pub fn message(&self) -> (message: Option<&str>)
        ensures
            match message {
                Some(m) => self@.message == Some(m@),
                None => self@.message is None,
            },
    {
        match &self.message {
            Some(m) => Some(m.as_str()),
            None => None,
        }
    }

    /// Whether something changed that the terminal does not show yet.
    pub fn needs_update(&self) -> (pending: bool)
        ensures
            pending == self@.needs_update,
    {
        self.needs_update
    }

    /// Whether keystrokes edit the query.
    pub fn is_query_mode(&self) -> (mode: bool)
        ensures
            mode == self@.query_mode,
    {
        self.query_mode
    }

    /// Rows that show text: all but the status row.
    pub fn contents_height(&self) -> (rows: usize)
        ensures
            rows == self@.content_rows(),
    {
        self.height.saturating_sub(1)
    }

    /// Wraps the contents anew at the current width.
    fn recalc_lines(&mut self)
        ensures
            final(self)@ == old(self)@.rewrapped(),
    {
        self.lines = LineBreaker::new(self.width, self.contents.as_str()).collect();
        self.needs_update = true;
    }

    /// Brings the scroll offset back into range.
    fn fix_current_top(&mut self)
        ensures
            final(self)@ == old(self)@.clamped(),
    {
        let max_top = self.lines.len().saturating_sub(self.contents_height());
        if self.current_top > max_top {
            self.current_top = max_top;
        }
        self.needs_update = true;
    }

    /// Takes a new terminal size. Nothing happens where it is the old one;
    /// otherwise the lines are wrapped anew and the scroll offset is brought
    /// back into range. The screen is marked for redrawing, not redrawn.
    pub fn update_size(&mut self, width: usize, height: usize)
        ensures
            final(self)@ == old(self)@.resized(width as nat, height as nat),
            old(self).wf() ==> final(self).wf(),
    {
        if self.width == width && self.height == height {
            return ;
        }
        self.width = width;
        self.height = height;
        self.recalc_lines();
        self.fix_current_top();
    }

    /// Switches query editing on or off.
    pub fn set_query_mode(&mut self, mode: bool)
        ensures
            final(self)@ == (ScreenView { query_mode: mode, needs_update: true, ..old(self)@ }),
            old(self).wf() ==> final(self).wf(),
    {
        self.needs_update = true;
        self.query_mode = mode;
    }

    /// Scrolls by `amount` lines, down where it is positive. The offset stops
    /// at the first and at the last page, however large the amount.
    pub fn scroll(&mut self, amount: isize)
        ensures
            final(self)@ == old(self)@.scrolled(amount as int),
            final(self)@.top <= final(self)@.max_top(),
            old(self).wf() ==> final(self).wf(),
    {
        if amount >= 0 {
            self.current_top = self.current_top.saturating_add(amount as usize);
        } else {
            let back: usize = (-(amount + 1)) as usize + 1;
            self.current_top = self.current_top.saturating_sub(back);
        }
        assert(self@.lines.len() == self.lines.len());
        self.fix_current_top();
    }

    /// Scrolls up by `unit`.
    pub fn up_by(&mut self, unit: MoveUnit)
        ensures
            final(self)@ == old(self)@.moved_up(unit),
            final(self)@.top <= final(self)@.max_top(),
            old(self).wf() ==> final(self).wf(),
    {
        match unit {
            MoveUnit::Line => self.scroll(-1),
            MoveUnit::HalfPage => {
                let half = self.height / 2;
                self.scroll(-(half as isize))
            },
            MoveUnit::Entire => {
                self.current_top = 0;
                self.needs_update = true;
            },
        }
    }

    /// Scrolls down by `unit`.
    pub fn down_by(&mut self, unit: MoveUnit)
        ensures
            final(self)@ == old(self)@.moved_down(unit),
            final(self)@.top <= final(self)@.max_top(),
            old(self).wf() ==> final(self).wf(),
    {
        match unit {
            MoveUnit::Line => self.scroll(1),
            MoveUnit::HalfPage => {
                let half = self.height / 2;
                self.scroll(half as isize)
            },
            MoveUnit::Entire => {
                self.current_top = usize::MAX;
                assert(self@.lines.len() == self.lines.len());
                self.fix_current_top();
            },
        }
    }

    /// Jumps to the nearest line above the top line that contains the query.
    /// Without a query, and where no such line is found, the scroll offset
    /// stays and the status message says why.
    pub fn prev(&mut self)
        ensures
            final(self)@ == old(self)@.found_prev(),
            old(self).wf() ==> final(self).wf(),
            old(self)@.query.len() == 0 ==> final(self)@.top == old(self)@.top
                && final(self)@.message == Some(query_not_set()),
    {
        if self.query.as_str().is_empty() {
            self.message = Some("search query is not set".to_owned());
            self.needs_update = true;
            return ;
        }
        match find_line_before(&self.lines, self.query.as_str(), self.current_top) {
            Some(line) => {
                self.current_top = line;
                self.fix_current_top();
            },
            None => {
                self.message = Some(self.not_found_message());
                self.needs_update = true;
            },
        }
    }

    /// Jumps to the first line below the top line that contains the query.
    /// Without a query, and where no such line is found, the scroll offset
    /// stays and the status message says why.
    pub fn next(&mut self)
        ensures
            final(self)@ == old(self)@.found_next(),
            old(self).wf() ==> final(self).wf(),
            old(self)@.query.len() == 0 ==> final(self)@.top == old(self)@.top
                && final(self)@.message == Some(query_not_set()),
    {
        if self.query.as_str().is_empty() {
            self.message = Some("search query is not set".to_owned());
            self.needs_update = true;
            return ;
        }
        assert(self@.lines.len() == self.lines.len());
        let hit = if self.current_top < self.lines.len() {
            find_line_after(&self.lines, self.query.as_str(), self.current_top + 1)
        } else {
            None
        };
        match hit {
            Some(line) => {
                self.current_top = line;
                self.fix_current_top();
            },
            None => {
                self.message = Some(self.not_found_message());
                self.needs_update = true;
            },
        }
    }

    /// The status message for a query that no line contains.
    fn not_found_message(&self) -> (message: String)
        ensures
            message@ == not_found(self@.query),
    {
        let mut message = "failed to find `".to_owned();
        message.append(self.query.as_str());
        message.append("`");
        message
    }

    /// Draws the screen if something changed since the last drawing, and
    /// returns what is to be put on the terminal: the visible lines with the
    /// occurrences of the query highlighted, and the status row. The status
    /// message is shown by one drawing only. Returns `None`, and changes
    /// nothing, where nothing changed.
    pub fn draw(&mut self) -> (frame: Option<Frame>)
        ensures
            !old(self)@.needs_update ==> frame is None && final(self)@ == old(self)@,
            old(self)@.needs_update ==> {
                &&& frame.is_some()
                &&& frame.unwrap()@ == old(self)@.frame()
                &&& final(self)@ == old(self)@.drawn()
            },
            old(self).wf() ==> final(self).wf(),
    {
        if !self.needs_update {
            return None;
        }
        let n = self.lines.len();
        assert(self@.lines.len() == n);
        let start = self.current_top;
        let rows = self.contents_height();
        let end = if start >= n {
            start
        } else if rows <= n - start {
            start + rows
        } else {
            n
        };
        let mut drawn: Vec<Vec<Segment>> = Vec::new();
        let mut i: usize = start;
        while i < end
            invariant
                self@ == old(self)@,
                n == self.lines.len(),
                start <= i <= end,
                end <= n || end == start,
                drawn.deep_view() == Seq::new(
                    (i - start) as nat,
                    |k: int| segments(self@.lines[start + k], self@.query),
                ),
            decreases end - i,
        {
            let ghost before = drawn.deep_view();
            let row = split_segments(self.lines[i].as_str(), self.query.as_str());
            assert(row.deep_view() == segments(self@.lines[i as int], self@.query));
            drawn.push(row);
            assert(drawn.deep_view() == before.push(row.deep_view()));
            i = i + 1;
        }
        let mut status = String::new();
        status.push(
            if self.query_mode {
                '/'
            } else {
                ':'
            },
        );
        match &self.message {
            Some(m) => status.append(m.as_str()),
            None => status.append(self.query.as_str()),
        }
        assert(status@ == self@.status_line());
        self.message = None;
        self.needs_update = false;
        Some(Frame { rows: drawn, status_row: rows, status })
    }
}

/// The lines of a consistent screen depend on its width and its contents
/// alone: two screens that agree on both show the same lines, whatever else
/// happened to them.
pub proof fn lemma_lines_depend_on_width_and_contents(a: ScreenView, b: ScreenView)
    requires
        a.wf(),
        b.wf(),
        a.width == b.width,
        a.contents == b.contents,
    ensures
        a.lines == b.lines,
{
}

/// Wrapping the lines anew a second time changes nothing.
pub proof fn lemma_rewrapping_twice(s: ScreenView)
    ensures
        s.rewrapped().rewrapped() == s.rewrapped(),
{
}

/// The scroll offset of a consistent screen is at least 0 and at most the
/// number of lines less the content rows, or 0 where that is negative.
pub proof fn lemma_offset_in_range(s: ScreenView)
    requires
        s.wf(),
    ensures
        0 <= s.top,
        s.lines.len() - s.content_rows() >= 0 ==> s.top <= s.lines.len() - s.content_rows(),
        s.lines.len() - s.content_rows() < 0 ==> s.top == 0,
{
}

/// A new screen is consistent, and scrolling, resizing, searching and drawing
/// keep a screen consistent: after any sequence of them the scroll offset is
/// in range.
pub proof fn lemma_operations_keep_wf(
    s: ScreenView,
    delta: int,
    unit: MoveUnit,
    width: nat,
    height: nat,
)
    requires
        s.wf(),
    ensures
        ScreenView::initial(width, height, s.contents).wf(),
        s.scrolled(delta).wf(),
        s.moved_up(unit).wf(),
        s.moved_down(unit).wf(),
        s.resized(width, height).wf(),
        s.found_next().wf(),
        s.found_prev().wf(),
        s.drawn().wf(),
{
    lemma_hit_after(s.lines, s.query, s.top as int + 1);
    lemma_hit_before(s.lines, s.query, s.top as int);
}

/// A search without a query leaves the scroll offset where it is and sets the
/// status message that says that no query is set.
pub proof fn lemma_search_without_query(s: ScreenView)
    requires
        s.query.len() == 0,
    ensures
        s.found_next().top == s.top,
        s.found_next().message == Some(query_not_set()),
        s.found_prev().top == s.top,
        s.found_prev().message == Some(query_not_set()),
{
}

/// Where the top line itself contains the query and a search forward moves
/// the scroll offset, a search backward right after it brings the offset
/// back.
pub proof fn lemma_next_then_prev(s: ScreenView)
    requires
        s.wf(),
        s.query.len() > 0,
        s.top < s.lines.len(),
        contains_query(s.lines[s.top as int], s.query),
        s.found_next().top != s.top,
    ensures
        s.found_next().found_prev().top == s.top,
{
    let from = s.top as int + 1;
    lemma_hit_after(s.lines, s.query, from);
    let there = s.found_next();
    lemma_hit_before(s.lines, s.query, there.top as int);
}

/// When a search forward has found a line, a search backward right after it
/// brings the scroll offset back in exactly two cases: the offset moved, and
/// the line it came from contains the query; or the offset could not move,
/// and no line above it contains the query.
pub proof fn lemma_next_then_prev_exactly(s: ScreenView)
    requires
        s.wf(),
        s.query.len() > 0,
        hit_after(s.lines, s.query, s.top as int + 1) is Some,
    ensures
        s.found_next().found_prev().top == s.top <==> if s.found_next().top != s.top {
            contains_query(s.lines[s.top as int], s.query)
        } else {
            hit_before(s.lines, s.query, s.top as int) is None
        },
{
    lemma_hit_after(s.lines, s.query, s.top as int + 1);
    let there = s.found_next();
    lemma_hit_before(s.lines, s.query, there.top as int);
}

} // verus!
