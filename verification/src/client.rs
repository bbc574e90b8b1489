//! The client: what it has learned of the services, and how it answers to
//! messages of the server and to the user.

use crate::common::{
    NetMessageS2C, NetMessageS2CView, ServiceConfig, ServiceConfigView, ServiceStatus,
};
use crate::list::{frame_area, next_selection, previous_selection, Area, ListState};
use std::collections::HashMap;
use vstd::prelude::*;

verus! {

broadcast use vstd::std_specs::hash::group_hash_axioms;

/// What happened to a key.
#[derive(Copy, Clone, Debug, PartialEq, Eq, Structural)]
pub enum KeyEventKind {
    Press,
    Repeat,
    Release,
}

/// The keys that mean something to the client.
#[derive(Copy, Clone, Debug, PartialEq, Eq, Structural)]
pub enum KeyCode {
    Up,
    Down,
    Char(char),
    Other,
}

/// The movements of the mouse that mean something to the client.
#[derive(Copy, Clone, Debug, PartialEq, Eq, Structural)]
pub enum MouseEventKind {
    ScrollUp,
    ScrollDown,
    Other,
}

/// An event of the terminal.
#[derive(Copy, Clone, Debug, PartialEq, Eq, Structural)]
pub enum Event {
    Key { kind: KeyEventKind, code: KeyCode },
    Mouse(MouseEventKind),
    Other,
}

impl Event {
    /// A key was pressed.
    pub open spec fn is_press_of(self, key: KeyCode) -> bool {
        self == (Event::Key { kind: KeyEventKind::Press, code: key })
    }

    /// The user wants the entry above.
    pub open spec fn moves_up(self) -> bool {
        self.is_press_of(KeyCode::Up) || self == Event::Mouse(MouseEventKind::ScrollUp)
    }

    /// The user wants the entry below.
    pub open spec fn moves_down(self) -> bool {
        self.is_press_of(KeyCode::Down) || self == Event::Mouse(MouseEventKind::ScrollDown)
    }
}

/// What a client knows of the services.
#[verifier::ext_equal]
pub struct ReplicaView {
    pub services: Map<u128, ServiceConfigView>,
    pub statuses: Map<u128, ServiceStatus>,
}

impl ReplicaView {
    pub open spec fn empty() -> ReplicaView {
        ReplicaView { services: Map::empty(), statuses: Map::empty() }
    }

    /// After a message of the server.
    pub open spec fn learned(self, message: NetMessageS2CView) -> ReplicaView {
        match message {
            NetMessageS2CView::UpdateServiceConfig { id, config } => ReplicaView {
                services: self.services.insert(id, config),
                ..self
            },
            NetMessageS2CView::UpdateServiceStatus { id, status } => ReplicaView {
                statuses: self.statuses.insert(id, status),
                ..self
            },
            NetMessageS2CView::RemoveService(id) => ReplicaView {
                services: self.services.remove(id),
                statuses: self.statuses.remove(id),
            },
            _ => self,
        }
    }

    /// After several messages of the server, one after the other.
    pub open spec fn learned_all(self, messages: Seq<NetMessageS2CView>) -> ReplicaView
        decreases messages.len(),
    {
        if messages.len() == 0 {
            self
        } else {
            self.learned_all(messages.drop_last()).learned(messages.last())
        }
    }
}

/// The views of a list of messages.
pub open spec fn message_views(messages: Seq<NetMessageS2C>) -> Seq<NetMessageS2CView> {
    messages.map_values(|message: NetMessageS2C| message@)
}

/// The screen that shows the list of services.
#[derive(Debug)]
pub struct AppStateServiceList {
    pub list_state: ListState,
}

/// The screen that is shown.
#[derive(Debug)]
pub enum AppStateKind {
    ServiceList(AppStateServiceList),
}

/// What a screen is told.
#[derive(Debug)]
pub enum StateCall<'a> {
    Event(&'a Event),
    Message(&'a NetMessageS2C),
}

impl AppStateServiceList {
    /// The list with its first entry selected.
    pub fn new() -> (state: AppStateServiceList)
        ensures
            state.list_state == (ListState { selected: Some(0), offset: 0 }),
    {
        AppStateServiceList { list_state: ListState::with_selected(Some(0)) }
    }

    /// The list after an event.
    pub open spec fn after_event(self, event: Event) -> AppStateServiceList {
        let selected = self.list_state.selected;
        if event.moves_up() {
            AppStateServiceList {
                list_state: ListState {
                    selected: Some(previous_selection(selected)),
                    ..self.list_state
                },
            }
        } else if event.moves_down() {
            AppStateServiceList {
                list_state: ListState {
                    selected: Some(next_selection(selected)),
                    ..self.list_state
                },
            }
        } else {
            self
        }
    }

    /// Moves the selection. The result is the screen to show next, if it is
    /// another one.
    pub fn handle_event(&mut self, event: &Event) -> (next_state: Option<AppStateKind>)
        ensures
            *final(self) == old(self).after_event(*event),
            next_state is None,
    {
        match event {
            Event::Key { kind, code } => {
                if *kind == KeyEventKind::Press {
                    match code {
                        KeyCode::Up => {
                            self.list_state.select_previous();
                        },
                        KeyCode::Down => {
                            self.list_state.select_next();
                        },
                        _ => {},
                    }
                }
            },
            Event::Mouse(kind) => match kind {
                MouseEventKind::ScrollUp => {
                    self.list_state.select_previous();
                },
                MouseEventKind::ScrollDown => {
                    self.list_state.select_next();
                },
                _ => {},
            },
            Event::Other => {},
        }
        None
    }

    /// The list takes no notice of messages.
    pub fn handle_message(&mut self, message: &NetMessageS2C) -> (next_state: Option<AppStateKind>)
        ensures
            *final(self) == *old(self),
            next_state is None,
    {
        None
    }

    /// The list can be drawn in the area: the three entries and the symbol of
    /// two columns take no position larger than the largest there is.
    pub open spec fn drawable(area: Area) -> bool {
        area.holds_list(3, 2)
    }

    /// The list after it was drawn in the area, where it can be.
    pub open spec fn after_drawing(self, area: Area) -> AppStateServiceList {
        if AppStateServiceList::drawable(area) {
            AppStateServiceList { list_state: self.list_state.drawn(3, area) }
        } else {
            self
        }
    }

    /// Draws the list in an area of the frame, where it can be drawn. The result
    /// is the screen to show next, if it is another one.
    pub fn render_in(&mut self, frame: &mut ratatui::Frame, area: Area) -> (next_state: Option<
        AppStateKind,
    >)
        ensures
            *final(self) == old(self).after_drawing(area),
            next_state is None,
    {
        let low: bool = area.y <= u16::MAX - area.height || area.y <= u16::MAX - 3;
        if low && area.x <= u16::MAX - 2 {
            proof {
                reveal_strlit("aaa");
                reveal_strlit("bbb");
                reveal_strlit("ccc");
                reveal_strlit("> ");
            }
            self.list_state.render(frame, area, vec!["aaa", "bbb", "ccc"], "> ");
        }
        None
    }

    /// Draws the list on the frame. How large the frame is depends on the
    /// terminal.
    pub fn render(&mut self, frame: &mut ratatui::Frame) -> (next_state: Option<AppStateKind>)
        ensures
            exists|area: Area| *final(self) == #[trigger] old(self).after_drawing(area),
            old(self).list_state.selected is Some ==> final(self).list_state.selected is Some,
            next_state is None,
    {
        let area = frame_area(frame);
        self.render_in(frame, area)
    }
}

impl AppStateKind {
    /// The screen itself.
    pub fn app_state(&mut self) -> (state: &mut AppStateServiceList)
        ensures
            *old(self) == AppStateKind::ServiceList(*state),
            *final(self) == AppStateKind::ServiceList(*final(state)),
    {
        match self {
            AppStateKind::ServiceList(state) => state,
        }
    }

    /// The screen after it was told something.
    pub open spec fn after_call(self, call: StateCall) -> AppStateKind {
        match self {
            AppStateKind::ServiceList(state) => match call {
                StateCall::Event(event) => AppStateKind::ServiceList(state.after_event(*event)),
                StateCall::Message(_) => self,
            },
        }
    }

    /// The screen after it was drawn in the area.
    pub open spec fn after_drawing(self, area: Area) -> AppStateKind {
        match self {
            AppStateKind::ServiceList(state) => AppStateKind::ServiceList(
                state.after_drawing(area),
            ),
        }
    }

    /// An entry of the list is selected.
    pub open spec fn has_selection(self) -> bool {
        match self {
            AppStateKind::ServiceList(state) => state.list_state.selected is Some,
        }
    }
}

/// What is to be done after a turn of the client's loop.
#[derive(Copy, Clone, Debug, PartialEq, Eq, Structural)]
pub enum Turn {
    /// Leave the loop.
    Exit,
    /// Draw the screen, then take the next turn.
    Draw,
    /// Take the next turn.
    Wait,
}

/// The client.
#[derive(Debug)]
pub struct App {
    pub exit: bool,
    pub services: HashMap<u128, ServiceConfig>,
    pub statuses: HashMap<u128, ServiceStatus>,
    pub state: AppStateKind,
}

/// The client as a value.
#[verifier::ext_equal]
pub struct AppView {
    pub exit: bool,
    pub replica: ReplicaView,
    pub state: AppStateKind,
}

impl View for App {
    type V = AppView;

    open spec fn view(&self) -> AppView {
        AppView {
            exit: self.exit,
            replica: ReplicaView {
                services: self.services@.map_values(|config: ServiceConfig| config@),
                statuses: self.statuses@,
            },
            state: self.state,
        }
    }
}

impl AppView {
    /// After an event of the terminal, or after none came in time.
    pub open spec fn after_event(self, event: Option<Event>) -> AppView {
        match event {
            Some(event) => AppView {
                exit: self.exit || event.is_press_of(KeyCode::Char('q')),
                state: self.state.after_call(StateCall::Event(&event)),
                ..self
            },
            None => self,
        }
    }

    /// After messages of the server.
    pub open spec fn after_messages(self, messages: Seq<NetMessageS2CView>) -> AppView {
        AppView { replica: self.replica.learned_all(messages), ..self }
    }

    /// After the screen was drawn in the area.
    pub open spec fn after_drawing(self, area: Area) -> AppView {
        AppView { state: self.state.after_drawing(area), ..self }
    }

    /// After a turn of the loop. A client that wants to leave takes none.
    pub open spec fn after_turn(
        self,
        event: Option<Event>,
        messages: Seq<NetMessageS2CView>,
    ) -> AppView {
        if self.exit {
            self
        } else {
            self.after_event(event).after_messages(messages)
        }
    }
}

impl App {
    /// A client that just connected.
    pub fn new() -> (app: App)
        ensures
            app@.replica == ReplicaView::empty(),
            !app@.exit,
            app@.state == AppStateKind::ServiceList(
                AppStateServiceList { list_state: ListState { selected: Some(0), offset: 0 } },
            ),
    {
        let app = App {
            exit: false,
            services: HashMap::new(),
            statuses: HashMap::new(),
            state: AppStateKind::ServiceList(AppStateServiceList::new()),
        };
        assert(app@.replica =~~= ReplicaView::empty());
        app
    }

    /// Shows another screen, if one is asked for.
    pub fn show(&mut self, next_state: Option<AppStateKind>)
        ensures
            final(self)@ == (AppView {
                state: match next_state {
                    Some(state) => state,
                    None => old(self)@.state,
                },
                ..old(self)@
            }),
    {
        if let Some(state) = next_state {
            self.state = state;
        }
    }

    /// Tells the screen something, and shows another one if the screen asks for
    /// it.
    pub fn with_state_ref(&mut self, call: StateCall)
        ensures
            final(self)@ == (AppView { state: old(self)@.state.after_call(call), ..old(self)@ }),
    {
        let next_state = match call {
            StateCall::Event(event) => self.state.app_state().handle_event(event),
            StateCall::Message(message) => self.state.app_state().handle_message(message),
        };
        self.show(next_state);
    }

    /// Takes in a message of the server.
    fn handle_message(&mut self, message: NetMessageS2C)
        ensures
            final(self)@ == (AppView {
                replica: old(self)@.replica.learned(message@),
                ..old(self)@
            }),
    {
        self.with_state_ref(StateCall::Message(&message));
        match message {
            NetMessageS2C::UpdateServiceConfig { id, config } => {
                self.services.insert(id, config);
            },
            NetMessageS2C::UpdateServiceStatus { id, status } => {
                self.statuses.insert(id, status);
            },
            NetMessageS2C::RemoveService(id) => {
                self.services.remove(&id);
                self.statuses.remove(&id);
            },
            _ => {},
        }
        assert(self@.replica =~~= old(self)@.replica.learned(message@));
    }

    /// Takes in the messages that have arrived. The result says whether there
    /// were any.
    pub fn handle_network(&mut self, messages: Vec<NetMessageS2C>) -> (updated: bool)
        ensures
            final(self)@ == old(self)@.after_messages(message_views(messages@)),
            updated == (messages@.len() > 0),
    {
        let mut updated = false;
        let ghost all = message_views(messages@);
        assert(all.take(0) =~= Seq::<NetMessageS2CView>::empty());
        for message in it: messages
            invariant
                it.seq() == messages@,
                all == message_views(messages@),
                self@ == old(self)@.after_messages(all.take(it.index())),
                updated == (it.index() > 0),
        {
            updated = true;
            self.handle_message(message);
            assert(all.take(it.index() + 1).drop_last() =~= all.take(it.index()));
            assert(all.take(it.index() + 1).last() == message@);
        }
        assert(all.take(all.len() as int) =~= all);
        updated
    }

    /// Takes in an event of the terminal, if one came in time. The result says
    /// whether one did.
    pub fn handle_events(&mut self, event: Option<Event>) -> (updated: bool)
        ensures
            final(self)@ == old(self)@.after_event(event),
            updated == event is Some,
    {
        match event {
            Some(event) => {
                self.with_state_ref(StateCall::Event(&event));
                match event {
                    Event::Key { kind: KeyEventKind::Press, code: KeyCode::Char('q') } => {
                        self.exit = true;
                    },
                    _ => {},
                }
                true
            },
            None => false,
        }
    }

    /// Draws the screen on the frame. How large the frame is depends on the
    /// terminal.
    pub fn render(&mut self, frame: &mut ratatui::Frame)
        ensures
            exists|area: Area| final(self)@ == #[trigger] old(self)@.after_drawing(area),
            old(self)@.state.has_selection() ==> final(self)@.state.has_selection(),
    {
        let ghost before = self@;
        let next_state = self.state.app_state().render(frame);
        self.show(next_state);
        proof {
            let AppStateKind::ServiceList(list) = before.state;
            let area = choose|area: Area|
                self@.state == AppStateKind::ServiceList(#[trigger] list.after_drawing(area));
            assert(self@ == before.after_drawing(area));
        }
    }

    /// How the client's loop begins: by drawing the screen, unless the client
    /// wants to leave already.
    pub fn first_turn(&self) -> (turn: Turn)
        ensures
            turn == (if self@.exit {
                Turn::Exit
            } else {
                Turn::Draw
            }),
    {
        if self.exit {
            Turn::Exit
        } else {
            Turn::Draw
        }
    }

    /// One turn of the client's loop: takes in an event of the terminal, if one
    /// came in time, and then the messages that have arrived. A client that
    /// wants to leave already takes in nothing.
    pub fn run(&mut self, event: Option<Event>, messages: Vec<NetMessageS2C>) -> (turn: Turn)
        ensures
            final(self)@ == old(self)@.after_turn(event, message_views(messages@)),
            turn == (if final(self)@.exit {
                Turn::Exit
            } else if event is Some || messages@.len() > 0 {
                Turn::Draw
            } else {
                Turn::Wait
            }),
    {
        if self.exit {
            return Turn::Exit;
        }
        let seen = self.handle_events(event);
        let heard = self.handle_network(messages);
        if self.exit {
            Turn::Exit
        } else if seen || heard {
            Turn::Draw
        } else {
            Turn::Wait
        }
    }
}

proof fn lemma_learned_in_groups(
    replica: ReplicaView,
    first: Seq<NetMessageS2CView>,
    second: Seq<NetMessageS2CView>,
)
    ensures
        replica.learned_all(first + second) == replica.learned_all(first).learned_all(second),
    decreases second.len(),
{
    if second.len() == 0 {
        assert(first + second =~= first);
    } else {
        assert((first + second).drop_last() =~= first + second.drop_last());
        lemma_learned_in_groups(replica, first, second.drop_last());
    }
}

/// In how many groups the messages of the server arrive makes no difference.
pub proof fn lemma_grouping_makes_no_difference(
    app: AppView,
    first: Seq<NetMessageS2CView>,
    second: Seq<NetMessageS2CView>,
)
    ensures
        app.after_messages(first + second) == app.after_messages(first).after_messages(second),
{
    lemma_learned_in_groups(app.replica, first, second);
}

/// Moving up undoes moving down, unless no entry is selected or the selected
/// index is the largest there is.
pub proof fn lemma_up_undoes_down(list: AppStateServiceList, down: Event, up: Event)
    requires
        list.list_state.selected is Some,
        list.list_state.selected->0 < usize::MAX,
        down.moves_down(),
        up.moves_up(),
    ensures
        list.after_event(down).after_event(up) == list,
{
}

/// Moving down undoes moving up, unless no entry or the first one is selected.
pub proof fn lemma_down_undoes_up(list: AppStateServiceList, down: Event, up: Event)
    requires
        list.list_state.selected is Some,
        list.list_state.selected->0 > 0,
        down.moves_down(),
        up.moves_up(),
    ensures
        list.after_event(up).after_event(down) == list,
{
}

/// The client wants to leave once the user pressed the key for it, and nothing
/// changes its mind. Nothing else makes it leave.
pub proof fn lemma_exit_is_final(
    app: AppView,
    event: Option<Event>,
    messages: Seq<NetMessageS2CView>,
)
    ensures
        app.after_turn(event, messages).exit == (app.exit || event == Some(
            Event::Key { kind: KeyEventKind::Press, code: KeyCode::Char('q') },
        )),
{
}

/// What happens to the list of services.
pub enum ListChange {
    Event(Event),
    Message,
    Drawn(Area),
}

/// The list after one change.
pub open spec fn after_change(list: AppStateServiceList, change: ListChange) -> AppStateServiceList {
    match change {
        ListChange::Event(event) => list.after_event(event),
        ListChange::Message => list,
        ListChange::Drawn(area) => list.after_drawing(area),
    }
}

/// The list after several changes.
pub open spec fn after_changes(
    list: AppStateServiceList,
    changes: Seq<ListChange>,
) -> AppStateServiceList
    decreases changes.len(),
{
    if changes.len() == 0 {
        list
    } else {
        after_change(after_changes(list, changes.drop_last()), changes.last())
    }
}

/// An entry is always selected: no event, no message and no drawing takes the
/// selection away.
pub proof fn lemma_entry_always_selected(list: AppStateServiceList, changes: Seq<ListChange>)
    requires
        list.list_state.selected is Some,
    ensures
        after_changes(list, changes).list_state.selected is Some,
    decreases changes.len(),
{
    if changes.len() > 0 {
        lemma_entry_always_selected(list, changes.drop_last());
    }
}

/// Once the list is drawn in an area with room, the selection is one of its
/// entries, and the entry is shown.
pub proof fn lemma_selected_entry_is_shown(list: AppStateServiceList, area: Area)
    requires
        list.list_state.selected is Some,
        AppStateServiceList::drawable(area),
        area.width > 0,
        area.height > 0,
    ensures
        ({
            let drawn = list.after_drawing(area).list_state;
            &&& drawn.selected is Some
            &&& drawn.selected->0 < 3
            &&& drawn.offset <= drawn.selected->0 < drawn.offset + area.height
        }),
{
}

/// Drawing the list a second time in the same area changes nothing.
pub proof fn lemma_drawing_again_changes_nothing(list: AppStateServiceList, area: Area)
    ensures
        list.after_drawing(area).after_drawing(area) == list.after_drawing(area),
{
}

/// Neither a turn of the client's loop nor drawing the screen takes the
/// selection away.
pub proof fn lemma_client_keeps_selection(
    app: AppView,
    event: Option<Event>,
    messages: Seq<NetMessageS2CView>,
    area: Area,
)
    requires
        app.state.has_selection(),
    ensures
        app.after_turn(event, messages).state.has_selection(),
        app.after_drawing(area).state.has_selection(),
{
}

} // verus!
