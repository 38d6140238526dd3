//! The launcher controller: owns the application index, the query text,
//! the selection cursor and the modifier flag, and maps each raw input
//! event to exactly one state mutation. The surrounding loop feeds it one
//! decoded event at a time and recomputes the match list after each.

use vstd::prelude::*;

use crate::config::Config;
use crate::errors::LaunchError;
use crate::index::{evs, load_entries, lookup_in, AppEntry, AppIndex, EntryV};
use crate::matching::{count_nonempty, match_list, nonempty_count, placeholder, search};
use crate::text::{pop_char, push_char};

verus! {

/// A key, as decoded at the display edge from the raw key code.
#[derive(Clone, Copy, Debug, PartialEq, Eq)]
pub enum Key {
    /// Move the selection cursor one entry to the left.
    CursorLeft,
    /// Move the selection cursor one entry to the right.
    CursorRight,
    /// Ask the launcher to close.
    Escape,
    /// The tracked modifier (shift); held, it upper-cases typed letters.
    Modifier,
    /// Confirm the selection and launch it.
    Confirm,
    /// Remove the last character of the query.
    Backspace,
    /// Append a space to the query.
    Space,
    /// Append this character to the query.
    Printable(char),
    /// Any other key; pressing it does nothing.
    Other,
}

/// A raw input event: a key going down or coming up.
#[derive(Clone, Copy, Debug, PartialEq, Eq)]
pub enum Event {
    KeyPress(Key),
    KeyRelease(Key),
}

/// What the surrounding loop must do once an event is dispatched.
#[derive(Clone, Debug, PartialEq, Eq)]
pub enum Action {
    /// Nothing beyond the redraw that follows every event.
    Idle,
    /// Spawn the executable at this path, detached from the launcher.
    Launch(String),
}

/// ASCII upper-casing, applied to typed letters while the modifier is
/// held; anything but a lower-case ASCII letter is left alone.
pub open spec fn upper_char(c: char) -> char {
    match c {
        'a' => 'A', 'b' => 'B', 'c' => 'C', 'd' => 'D', 'e' => 'E', 'f' => 'F', 'g' => 'G',
        'h' => 'H', 'i' => 'I', 'j' => 'J', 'k' => 'K', 'l' => 'L', 'm' => 'M', 'n' => 'N',
        'o' => 'O', 'p' => 'P', 'q' => 'Q', 'r' => 'R', 's' => 'S', 't' => 'T', 'u' => 'U',
        'v' => 'V', 'w' => 'W', 'x' => 'X', 'y' => 'Y', 'z' => 'Z', _ => c,
    }
}

fn to_upper(c: char) -> (r: char)
    ensures
        r == upper_char(c),
{
    match c {
        'a' => 'A', 'b' => 'B', 'c' => 'C', 'd' => 'D', 'e' => 'E', 'f' => 'F', 'g' => 'G',
        'h' => 'H', 'i' => 'I', 'j' => 'J', 'k' => 'K', 'l' => 'L', 'm' => 'M', 'n' => 'N',
        'o' => 'O', 'p' => 'P', 'q' => 'Q', 'r' => 'R', 's' => 'S', 't' => 'T', 'u' => 'U',
        'v' => 'V', 'w' => 'W', 'x' => 'X', 'y' => 'Y', 'z' => 'Z', _ => c,
    }
}

/// The launcher controller's state.
pub struct Menu {
    pub config: Config,
    pub index: AppIndex,
    pub query: String,
    pub selected: usize,
    pub shift_held: bool,
    pub should_close: bool,
    pub matches: Vec<AppEntry>,
}

/// The dispatcher's specification: how one event maps the pre-state's
/// query, cursor, modifier flag and closing flag to the post-state's, and
/// what the dispatch returns. The match list and the index never change
/// here; recomputing the match list is a separate step.
pub open spec fn dispatch_rel(
    pre: Menu,
    event: Event,
    post_query: Seq<char>,
    post_selected: int,
    post_shift: bool,
    post_close: bool,
    r: Result<Action, LaunchError>,
) -> bool {
    let count = nonempty_count(evs(pre.matches@)) as int;
    match event {
        Event::KeyPress(Key::CursorLeft) => post_query == pre.query@ && post_shift
            == pre.shift_held && post_close == pre.should_close && r == Ok::<
            Action,
            LaunchError,
        >(Action::Idle) && post_selected == (if pre.selected > 0 {
            pre.selected - 1
        } else {
            0
        }),
        Event::KeyPress(Key::CursorRight) => post_query == pre.query@ && post_shift
            == pre.shift_held && post_close == pre.should_close && r == Ok::<
            Action,
            LaunchError,
        >(Action::Idle) && post_selected == (if count > 0 && pre.selected < count - 1 {
            pre.selected + 1
        } else {
            pre.selected as int
        }),
        Event::KeyPress(Key::Escape) => post_query == pre.query@ && post_selected == pre.selected
            && post_shift == pre.shift_held && post_close == true && r == Ok::<
            Action,
            LaunchError,
        >(Action::Idle),
        Event::KeyPress(Key::Modifier) => post_query == pre.query@ && post_selected
            == pre.selected && post_shift == true && post_close == pre.should_close && r == Ok::<
            Action,
            LaunchError,
        >(Action::Idle),
        Event::KeyPress(Key::Confirm) => {
            let ms = evs(pre.matches@);
            post_query == pre.query@ && post_selected == pre.selected && post_shift
                == pre.shift_held && (if pre.selected < ms.len() {
                match lookup_in(pre.index@, ms[pre.selected as int].name) {
                    Some(p) => post_close == true && (r matches Ok(a) && a matches Action::Launch(
                        path,
                    ) && path@ == p),
                    None => post_close == pre.should_close && r == Err::<Action, LaunchError>(
                        LaunchError::NoSuchProgram,
                    ),
                }
            } else {
                post_close == pre.should_close && r == Err::<Action, LaunchError>(
                    LaunchError::NoSuchProgram,
                )
            })
        },
        Event::KeyPress(Key::Backspace) => post_query == (if pre.query@.len() > 0 {
            pre.query@.drop_last()
        } else {
            pre.query@
        }) && post_selected == 0 && post_shift == pre.shift_held && post_close
            == pre.should_close && r == Ok::<Action, LaunchError>(Action::Idle),
        Event::KeyPress(Key::Space) => post_query == pre.query@.push(' ') && post_selected == 0
            && post_shift == pre.shift_held && post_close == pre.should_close && r == Ok::<
            Action,
            LaunchError,
        >(Action::Idle),
        Event::KeyPress(Key::Printable(c)) => post_query == pre.query@.push(
            if pre.shift_held {
                upper_char(c)
            } else {
                c
            },
        ) && post_selected == 0 && post_shift == pre.shift_held && post_close == pre.should_close
            && r == Ok::<Action, LaunchError>(Action::Idle),
        Event::KeyPress(Key::Other) => post_query == pre.query@ && post_selected == pre.selected
            && post_shift == pre.shift_held && post_close == pre.should_close && r == Ok::<
            Action,
            LaunchError,
        >(Action::Idle),
        Event::KeyRelease(Key::Modifier) => post_query == pre.query@ && post_selected
            == pre.selected && post_shift == false && post_close == pre.should_close && r == Ok::<
            Action,
            LaunchError,
        >(Action::Idle),
        Event::KeyRelease(_) => post_query == pre.query@ && post_selected == pre.selected
            && post_shift == pre.shift_held && post_close == pre.should_close && r == Ok::<
            Action,
            LaunchError,
        >(Action::Idle),
    }
}

impl Menu {
    /// The cursor is clamped: zero, or strictly inside the real entries
    /// of the current match list.
    pub open spec fn sel_ok(self) -> bool {
        self.selected == 0 || (self.selected as nat) < nonempty_count(evs(self.matches@))
    }

    /// Everything the run loop keeps true between events: the index is a
    /// mapping, the cursor is clamped, and the match list is either all
    /// placeholders (as before the first event) or reflects the current
    /// query at the loop's capacity.
    pub open spec fn inv(self, capacity: nat) -> bool {
        &&& self.index.wf()
        &&& self.sel_ok()
        &&& (nonempty_count(evs(self.matches@)) > 0 ==> evs(self.matches@) == match_list(
            self.index@,
            self.query@,
            capacity,
        ))
    }

    /// A fresh controller: empty query, cursor at zero, modifier up, not
    /// closing, an empty index, and a small all-placeholder match list.
    pub fn new(config: Config) -> (r: Menu)
        ensures
            r.query@ == Seq::<char>::empty(),
            r.selected == 0,
            r.shift_held == false,
            r.should_close == false,
            r.index@ == Seq::<EntryV>::empty(),
            r.index.wf(),
            r.matches@.len() == 5,
            forall|i: int| 0 <= i < r.matches@.len() ==> (#[trigger] r.matches@[i])@
                == placeholder(),
            nonempty_count(evs(r.matches@)) == 0,
            r.config == config,
            forall|cap: nat| r.inv(cap),
    {
        let mut matches: Vec<AppEntry> = Vec::new();
        let mut i: usize = 0;
        while i < 5
            invariant
                i <= 5,
                matches@.len() == i,
                forall|k: int| 0 <= k < i ==> (#[trigger] matches@[k])@ == placeholder(),
                nonempty_count(evs(matches@)) == 0,
            decreases 5 - i,
        {
            let ghost pre = evs(matches@);
            matches.push(AppEntry { name: String::new(), path: String::new() });
            proof {
                assert(evs(matches@).drop_last() =~= pre);
            }
            i = i + 1;
        }
        Menu {
            config,
            index: AppIndex::new(),
            query: String::new(),
            selected: 0,
            shift_held: false,
            should_close: false,
            matches,
        }
    }

    /// Takes in the executables discovered on the search path, first to
    /// last; on a name collision the entry handed in last wins, so the
    /// last directory scanned wins.
    pub fn load_applications(&mut self, files: Vec<AppEntry>)
        requires
            old(self).index.wf(),
        ensures
            final(self).index.wf(),
            final(self).index@ == load_entries(old(self).index@, evs(files@)),
            final(self).config == old(self).config,
            final(self).query == old(self).query,
            final(self).selected == old(self).selected,
            final(self).shift_held == old(self).shift_held,
            final(self).should_close == old(self).should_close,
            final(self).matches == old(self).matches,
    {
        self.index.insert_all(files);
    }

    /// Recomputes the match list from the index and the current query.
    pub fn search(&mut self, capacity: usize)
        ensures
            evs(final(self).matches@) == match_list(
                old(self).index@,
                old(self).query@,
                capacity as nat,
            ),
            final(self).matches@.len() == capacity,
            final(self).config == old(self).config,
            final(self).index == old(self).index,
            final(self).query == old(self).query,
            final(self).selected == old(self).selected,
            final(self).shift_held == old(self).shift_held,
            final(self).should_close == old(self).should_close,
    {
        self.matches = search(&self.index, self.query.as_str(), capacity);
    }

    /// Resets the selection cursor, as every query edit must.
    fn reset_search(&mut self)
        ensures
            *final(self) == (Menu { selected: 0usize, ..*old(self) }),
    {
        self.selected = 0;
    }

    /// Maps one raw input event to its state mutation, per the
    /// dispatcher's specification; touches neither the index nor the
    /// match list. A confirm on a selection whose name is not in the
    /// index fails, and then the closing flag is left alone and nothing
    /// is launched.
    pub fn handle_event(&mut self, event: &Event) -> (r: Result<Action, LaunchError>)
        requires
            old(self).index.wf(),
        ensures
            final(self).index == old(self).index,
            final(self).config == old(self).config,
            final(self).matches == old(self).matches,
            dispatch_rel(
                *old(self),
                *event,
                final(self).query@,
                final(self).selected as int,
                final(self).shift_held,
                final(self).should_close,
                r,
            ),
            old(self).sel_ok() ==> final(self).sel_ok(),
    {
        match event {
            Event::KeyPress(key) => match key {
                Key::CursorLeft => {
                    if self.selected > 0 {
                        self.selected = self.selected - 1;
                    }
                    Ok(Action::Idle)
                },
                Key::CursorRight => {
                    let count = count_nonempty(&self.matches);
                    if count > 0 && self.selected < count - 1 {
                        self.selected = self.selected + 1;
                    }
                    Ok(Action::Idle)
                },
                Key::Escape => {
                    self.should_close = true;
                    Ok(Action::Idle)
                },
                Key::Modifier => {
                    self.shift_held = true;
                    Ok(Action::Idle)
                },
                Key::Confirm => {
                    if self.selected < self.matches.len() {
                        proof {
                            assert(evs(self.matches@)[self.selected as int]
                                == self.matches@[self.selected as int]@);
                        }
                        match self.index.lookup(&self.matches[self.selected].name) {
                            Some(path) => {
                                self.should_close = true;
                                Ok(Action::Launch(path))
                            },
                            None => Err(LaunchError::NoSuchProgram),
                        }
                    } else {
                        Err(LaunchError::NoSuchProgram)
                    }
                },
                Key::Backspace => {
                    pop_char(&mut self.query);
                    self.reset_search();
                    Ok(Action::Idle)
                },
                Key::Space => {
                    push_char(&mut self.query, ' ');
                    self.reset_search();
                    Ok(Action::Idle)
                },
                Key::Printable(c) => {
                    let ch = if self.shift_held {
                        to_upper(*c)
                    } else {
                        *c
                    };
                    push_char(&mut self.query, ch);
                    self.reset_search();
                    Ok(Action::Idle)
                },
                Key::Other => Ok(Action::Idle),
            },
            Event::KeyRelease(key) => {
                match key {
                    Key::Modifier => {
                        self.shift_held = false;
                    },
                    _ => {},
                }
                Ok(Action::Idle)
            },
        }
    }

    /// One full turn of the launcher: dispatch the event, then recompute
    /// the match list at the given capacity. Keeps the run loop's
    /// invariant; in particular the selection cursor stays clamped to the
    /// real entries of the match list after any sequence of events.
    pub fn step(&mut self, event: &Event, capacity: usize) -> (r: Result<Action, LaunchError>)
        requires
            old(self).inv(capacity as nat),
        ensures
            final(self).inv(capacity as nat),
            final(self).index == old(self).index,
            final(self).config == old(self).config,
            evs(final(self).matches@) == match_list(
                final(self).index@,
                final(self).query@,
                capacity as nat,
            ),
            dispatch_rel(
                *old(self),
                *event,
                final(self).query@,
                final(self).selected as int,
                final(self).shift_held,
                final(self).should_close,
                r,
            ),
    {
        let r = self.handle_event(event);
        let ghost mid = *self;
        self.search(capacity);
        proof {
            if self.selected != 0 {
                // only a cursor move or a neutral key leaves the cursor
                // away from zero, so the query is unchanged and the old
                // match list had a real entry, hence was current
                assert(mid.query@ == old(self).query@);
                assert(nonempty_count(evs(old(self).matches@)) > 0);
                assert(evs(old(self).matches@) == match_list(
                    old(self).index@,
                    old(self).query@,
                    capacity as nat,
                ));
                assert(evs(self.matches@) == evs(mid.matches@));
            }
        }
        r
    }
}

} // verus!

