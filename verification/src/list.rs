//! A list that is shown on the terminal, and the selection in it.

use vstd::prelude::*;

verus! {

/// Which entry of a list is selected, and which is shown first. How many
/// entries there are is known only when the list is drawn: until then a
/// selection may lie beyond the last one.
#[derive(Copy, Clone, Debug, PartialEq, Eq, Structural)]
pub struct ListState {
    pub selected: Option<usize>,
    pub offset: usize,
}

/// The selection that follows this one: the first entry where there is none.
pub open spec fn next_selection(selected: Option<usize>) -> usize {
    match selected {
        None => 0,
        Some(i) => if i == usize::MAX {
            i
        } else {
            (i + 1) as usize
        },
    }
}

/// The selection that precedes this one: the largest index, which drawing
/// takes for the last entry, where there is none.
pub open spec fn previous_selection(selected: Option<usize>) -> usize {
    match selected {
        None => usize::MAX,
        Some(i) => if i == 0 {
            i
        } else {
            (i - 1) as usize
        },
    }
}

/// `ListState::with_selected` of the default `ListState` of `ratatui`: the
/// selection is the given one, and the first entry is shown first.
#[verifier::external_body]
fn default_with_selected(selected: Option<usize>) -> (state: (Option<usize>, usize))
    ensures
        state == (selected, 0usize),
{
    let state = ratatui::widgets::ListState::default().with_selected(selected);
    (state.selected(), state.offset())
}

/// `ListState::select_next` of `ratatui` on a list with this selection and this
/// first entry: it selects the following index, up to the largest there is, and
/// leaves the first entry alone.
#[verifier::external_body]
fn list_select_next(selected: Option<usize>, offset: usize) -> (state: (Option<usize>, usize))
    ensures
        state == (Some(next_selection(selected)), offset),
{
    let mut state = ratatui::widgets::ListState::default()
        .with_selected(selected)
        .with_offset(offset);
    state.select_next();
    (state.selected(), state.offset())
}

/// `ListState::select_previous` of `ratatui` on a list with this selection and
/// this first entry: it selects the preceding index, down to the first, and
/// leaves the first entry alone.
#[verifier::external_body]
fn list_select_previous(selected: Option<usize>, offset: usize) -> (state: (Option<usize>, usize))
    ensures
        state == (Some(previous_selection(selected)), offset),
{
    let mut state = ratatui::widgets::ListState::default()
        .with_selected(selected)
        .with_offset(offset);
    state.select_previous();
    (state.selected(), state.offset())
}

/// What is drawn on: the `Frame` of `ratatui`.
#[verifier::external_type_specification]
#[verifier::external_body]
pub struct ExFrame<'a>(ratatui::Frame<'a>);

/// A part of the terminal: its upper left corner and its size.
#[derive(Copy, Clone, Debug, PartialEq, Eq, Structural)]
pub struct Area {
    pub x: u16,
    pub y: u16,
    pub width: u16,
    pub height: u16,
}

impl Area {
    /// A list of so many entries of one line each, with a symbol of this width
    /// before the selected one, takes no position in the area that is larger
    /// than the largest there is.
    pub open spec fn holds_list(self, entries: nat, symbol: nat) -> bool {
        &&& self.x + symbol <= u16::MAX
        &&& self.y + self.height <= u16::MAX || self.y + entries <= u16::MAX
    }
}

/// None of these texts has more than one line.
pub open spec fn single_lines(texts: Seq<&str>) -> bool {
    forall|i: int| 0 <= i < texts.len() ==> !(#[trigger] texts[i])@.contains('\n')
}

/// A text of which no character is wider than one column.
pub open spec fn is_plain(text: Seq<char>) -> bool {
    forall|i: int| 0 <= i < text.len() ==> (#[trigger] text[i]) < '\u{80}'
}

/// `Frame::area` of `ratatui`: the part of the terminal that is drawn on.
/// Nothing is claimed of it, since it is the terminal that has it.
#[verifier::external_body]
pub(crate) fn frame_area(frame: &ratatui::Frame) -> Area {
    let area = frame.area();
    Area { x: area.x, y: area.y, width: area.width, height: area.height }
}

/// `Frame::render_stateful_widget` of `ratatui` with a `List` of these entries
/// and a `ListState` with this selection and this first entry. The contract
/// says what becomes of the `ListState`: nothing where the area is empty; else
/// a selection beyond the last entry becomes the last one, and the list is
/// scrolled no further than it takes to show the selected entry. What then
/// stands on the frame is left unsaid.
#[verifier::external_body]
fn render_list(
    frame: &mut ratatui::Frame,
    area: Area,
    entries: Vec<&str>,
    symbol: &str,
    selected: Option<usize>,
    offset: usize,
) -> (state: (Option<usize>, usize))
    requires
        single_lines(entries@),
        is_plain(symbol@),
        area.holds_list(entries@.len(), symbol@.len()),
    ensures
        (ListState { selected: state.0, offset: state.1 }) == (ListState {
            selected,
            offset,
        }).drawn(entries@.len(), area),
{
    let list = ratatui::widgets::List::new(entries)
        .style(ratatui::style::Color::White)
        .highlight_style(ratatui::style::Modifier::REVERSED)
        .highlight_symbol(symbol);
    let mut state = ratatui::widgets::ListState::default()
        .with_selected(selected)
        .with_offset(offset);
    let Area { x, y, width, height } = area;
    let area = ratatui::layout::Rect { x, y, width, height };
    frame.render_stateful_widget(list, area, &mut state);
    (state.selected(), state.offset())
}

/// The first entry that is shown where entries were shown from `first` on and
/// this one is to be among the `shown` that there is room for.
pub open spec fn scrolled(first: int, entry: int, shown: int) -> int {
    if entry < first {
        entry
    } else if entry < first + shown {
        first
    } else {
        entry - shown + 1
    }
}

/// The index, or the last one of so many entries where it lies beyond that.
pub open spec fn at_most_last(index: usize, entries: nat) -> usize {
    if index < entries {
        index
    } else {
        (entries - 1) as usize
    }
}

impl ListState {
    /// The list after it was drawn with so many entries of one line each.
    pub open spec fn drawn(self, entries: nat, area: Area) -> ListState {
        if area.width == 0 || area.height == 0 {
            self
        } else if entries == 0 {
            ListState { selected: None, offset: 0 }
        } else {
            let first = at_most_last(self.offset, entries);
            match self.selected {
                None => ListState { selected: None, offset: first },
                Some(selected) => {
                    let entry = at_most_last(selected, entries);
                    ListState {
                        selected: Some(entry),
                        offset: scrolled(first as int, entry as int, area.height as int) as usize,
                    }
                },
            }
        }
    }

    /// Draws the list in the area, with the symbol before the selected entry.
    pub fn render(
        &mut self,
        frame: &mut ratatui::Frame,
        area: Area,
        entries: Vec<&str>,
        symbol: &str,
    )
        requires
            single_lines(entries@),
            is_plain(symbol@),
            area.holds_list(entries@.len(), symbol@.len()),
        ensures
            *final(self) == old(self).drawn(entries@.len(), area),
    {
        let (selected, offset) = render_list(
            frame,
            area,
            entries,
            symbol,
            self.selected,
            self.offset,
        );
        self.selected = selected;
        self.offset = offset;
    }

    /// A list shown from its first entry on.
    pub fn with_selected(selected: Option<usize>) -> (state: ListState)
        ensures
            state == (ListState { selected, offset: 0 }),
    {
        let (selected, offset) = default_with_selected(selected);
        ListState { selected, offset }
    }

    /// Selects the next entry.
    pub fn select_next(&mut self)
        ensures
            *final(self) == (ListState {
                selected: Some(next_selection(old(self).selected)),
                ..*old(self)
            }),
    {
        let (selected, offset) = list_select_next(self.selected, self.offset);
        self.selected = selected;
        self.offset = offset;
    }

    /// Selects the previous entry.
    pub fn select_previous(&mut self)
        ensures
            *final(self) == (ListState {
                selected: Some(previous_selection(old(self).selected)),
                ..*old(self)
            }),
    {
        let (selected, offset) = list_select_previous(self.selected, self.offset);
        self.selected = selected;
        self.offset = offset;
    }
}

} // verus!
