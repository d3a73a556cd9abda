//! What a client keeps while it walks the tree of entries: the path from
//! the root to where it stands, and a cursor over a list of choices.

use crate::consts::ROOT_ID;
use crate::entry::{Entry, EntryData, EntryDataView, EntryView};
use crate::error::DataError;
use crate::store::{file_name, hex_name};
use vstd::prelude::*;

verus! {

/// The name under which an entry is shown: an access group has its own
/// name, a message is named by the sixteen hexadecimal digits of its id.
pub open spec fn entry_name(entry_id: u64, entry: EntryView) -> Seq<char> {
    match entry.entry_data {
        EntryDataView::AccessGroup { name, .. } => name,
        EntryDataView::Message { .. } => hex_name(entry_id),
    }
}

/// The name under which an entry is shown.
pub fn extract_name(entry_id: u64, entry: &Entry) -> (name: String)
    ensures
        name@ == entry_name(entry_id, entry@),
{
    match &entry.entry_data {
        EntryData::AccessGroup { name, .. } => name.clone(),
        EntryData::Message { .. } => file_name(entry_id),
    }
}

/// The path from the root to an entry: ids with the names they are shown
/// under, the root first.
#[derive(Debug)]
pub struct PathManager {
    pub path: Vec<(u64, String)>,
}

impl View for PathManager {
    type V = Seq<(u64, Seq<char>)>;

    open spec fn view(&self) -> Seq<(u64, Seq<char>)> {
        Seq::new(self.path@.len(), |i: int| (self.path@[i].0, self.path@[i].1@))
    }
}

/// Whether the entry `entry_id` may extend `path`. An empty path takes the
/// root alone: the entry of id zero, which is its own parent and an access
/// group. Any other path takes the children of its last entry.
pub open spec fn admits(path: Seq<(u64, Seq<char>)>, entry_id: u64, entry: EntryView) -> Result<
    (),
    DataError,
> {
    if path.len() > 0 {
        if entry.header_data.parent_id != path.last().0 {
            Err(DataError::NonChild)
        } else {
            Ok(())
        }
    } else if entry.header_data.parent_id != ROOT_ID || entry_id != ROOT_ID
        || !(entry.entry_data is AccessGroup) {
        Err(DataError::MalformedRoot)
    } else {
        Ok(())
    }
}

impl PathManager {
    /// The empty path.
    pub fn new() -> (manager: Self)
        ensures
            manager@ == Seq::<(u64, Seq<char>)>::empty(),
    {
        let manager = PathManager { path: Vec::new() };
        manager
    }

    /// Whether the path holds the root already.
    pub fn is_init(&self) -> (init: bool)
        ensures
            init == (self@.len() > 0),
    {
        self.path.len() > 0
    }

    /// The last entry of the path.
    pub fn peek(&self) -> (last: &(u64, String))
        requires
            self@.len() > 0,
        ensures
            (last.0, last.1@) == self@.last(),
    {
        &self.path[self.path.len() - 1]
    }

    /// Takes the last entry off the path, unless it is the root.
    pub fn pop(&mut self) -> (res: Option<(u64, String)>)
        ensures
            old(self)@.len() > 1 ==> res is Some && (res->Some_0.0, res->Some_0.1@) == old(
                self,
            )@.last() && final(self)@ == old(self)@.drop_last(),
            old(self)@.len() <= 1 ==> res is None && final(self)@ == old(self)@,
    {
        // do not remove the root
        if self.path.len() > 1 {
            self.path.pop()
        } else {
            None
        }
    }

    /// Extends the path by the entry `entry_id`, if the path admits it.
    pub fn push(&mut self, entry_id: u64, entry: &Entry) -> (res: Result<(), DataError>)
        ensures
            res == admits(old(self)@, entry_id, entry@),
            res is Ok ==> final(self)@ == old(self)@.push(
                (entry_id, entry_name(entry_id, entry@)),
            ),
            res is Err ==> final(self)@ == old(self)@,
    {
        let parent_id = entry.header_data.parent_id;
        if self.path.len() > 0 {
            if parent_id != self.peek().0 {
                return Err(DataError::NonChild);
            }
        } else {
            let is_group = match &entry.entry_data {
                EntryData::AccessGroup { .. } => true,
                EntryData::Message { .. } => false,
            };
            if parent_id != ROOT_ID || entry_id != ROOT_ID || !is_group {
                return Err(DataError::MalformedRoot);
            }
        }
        let name = extract_name(entry_id, entry);
        self.path.push((entry_id, name));
        Ok(())
    }
}

/// A list of choices with a cursor that is on one of them, or on none.
#[derive(Debug)]
pub struct Selector<T> {
    pub cursor_pos: Option<usize>,
    pub items: Vec<T>,
}

impl<T> Selector<T> {
    /// The choices `items`, with the cursor on none.
    pub fn new(items: Vec<T>) -> (selector: Self)
        ensures
            selector.cursor_pos is None,
            selector.items == items,
    {
        Selector { cursor_pos: None, items }
    }

    /// Puts other choices in place of these. A cursor stays where it is,
    /// but no further down than just behind the last choice.
    pub fn replace_items(&mut self, items: Vec<T>)
        ensures
            final(self).items == items,
            final(self).cursor_pos == match old(self).cursor_pos {
                Some(pos) => Some(if pos <= items.len() { pos } else { items.len() }),
                None => None,
            },
    {
        self.items = items;
        if let Some(cursor_pos) = self.cursor_pos {
            let len = self.items.len();
            self.cursor_pos = Some(if cursor_pos <= len { cursor_pos } else { len });
        }
    }

    /// Moves the cursor one choice down, from the last to the first; a
    /// cursor that was on none goes to the first.
    pub fn down(&mut self)
        requires
            old(self).cursor_pos matches Some(pos) ==> old(self).items.len() > 0 && pos
                < usize::MAX,
        ensures
            final(self).items == old(self).items,
            final(self).cursor_pos == match old(self).cursor_pos {
                Some(pos) => Some(((pos + 1) % (old(self).items.len() as int)) as usize),
                None => Some(0usize),
            },
    {
        match self.cursor_pos {
            Some(cursor_pos) => {
                self.cursor_pos = Some((cursor_pos + 1) % self.items.len());
            },
            None => {
                self.cursor_pos = Some(0);
            },
        }
    }

    /// Moves the cursor one choice up, from the first to the last; a
    /// cursor that was on none goes to the first.
    pub fn up(&mut self)
        requires
            old(self).cursor_pos matches Some(pos) ==> old(self).items.len() > 0 && pos + old(
                self,
            ).items.len() <= usize::MAX,
        ensures
            final(self).items == old(self).items,
            final(self).cursor_pos == match old(self).cursor_pos {
                Some(pos) => Some(
                    ((pos + old(self).items.len() - 1) % (old(self).items.len() as int)) as usize,
                ),
                None => Some(0usize),
            },
    {
        match self.cursor_pos {
            Some(cursor_pos) => {
                self.cursor_pos = Some((cursor_pos + self.items.len() - 1) % self.items.len());
            },
            None => {
                self.cursor_pos = Some(0);
            },
        }
    }

    /// Puts a cursor that is on none on the first choice.
    pub fn select(&mut self)
        ensures
            final(self).items == old(self).items,
            final(self).cursor_pos == match old(self).cursor_pos {
                Some(pos) => Some(pos),
                None => Some(0usize),
            },
    {
        if self.cursor_pos.is_none() {
            self.cursor_pos = Some(0);
        }
    }

    /// Takes the cursor off the choices.
    pub fn deselect(&mut self)
        ensures
            final(self).items == old(self).items,
            final(self).cursor_pos is None,
    {
        self.cursor_pos = None;
    }

    /// The choice that the cursor is on, with its place in the list.
    pub fn selection(&self) -> (res: Option<(usize, &T)>)
        requires
            self.cursor_pos matches Some(pos) ==> pos < self.items.len(),
        ensures
            match self.cursor_pos {
                Some(pos) => res == Some((pos, &self.items@[pos as int])),
                None => res is None,
            },
    {
        match self.cursor_pos {
            Some(cursor_pos) => Some((cursor_pos, &self.items[cursor_pos])),
            None => None,
        }
    }
}

} // verus!
