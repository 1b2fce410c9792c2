use vstd::prelude::*;

verus! {

/// One screen the cat can be drawn on: the compositor's id for it, whether
/// its surface has been configured, and the surface itself.
pub struct OutputEntry<T> {
    pub output_id: u32,
    pub configured: bool,
    pub surface: T,
}

/// The screens the cat knows of, in the order they appeared, and the id of
/// the one that holds the cat, if any.
pub struct Outputs<T> {
    pub entries: Vec<OutputEntry<T>>,
    pub active: Option<u32>,
}

/// `i` is the first position of a screen with id `id`.
pub open spec fn first_index_of<T>(entries: Seq<OutputEntry<T>>, id: u32, i: int) -> bool {
    &&& 0 <= i < entries.len()
    &&& entries[i].output_id == id
    &&& forall|j: int| 0 <= j < i ==> #[trigger] entries[j].output_id != id
}

impl<T> Outputs<T> {
    /// No screen and no cat on any.
    pub fn new() -> (r: Self)
        ensures
            r.entries@.len() == 0,
            r.active is None,
    {
        Outputs { entries: Vec::new(), active: None }
    }

    /// Position of the first screen with id `output_id`.
    pub fn index_by_id(&self, output_id: u32) -> (r: Option<usize>)
        ensures
            match r {
                Some(i) => first_index_of(self.entries@, output_id, i as int),
                None => forall|j: int| 0 <= j < self.entries@.len() ==> #[trigger] self.entries@[j].output_id != output_id,
            },
    {
        let mut i: usize = 0;
        while i < self.entries.len()
            invariant
                i <= self.entries@.len(),
                forall|j: int| 0 <= j < i ==> #[trigger] self.entries@[j].output_id != output_id,
            decreases self.entries@.len() - i,
        {
            if self.entries[i].output_id == output_id {
                return Some(i);
            }
            i += 1;
        }
        None
    }

    /// The screen the cat is on at the start of a tick: the active one, or,
    /// where none is active yet, the first, which then becomes active. `None`
    /// where there is no screen (nothing changes then) or the active id names
    /// no screen.
    pub fn current_index(&mut self) -> (r: Option<usize>)
        ensures
            final(self).entries@ == old(self).entries@,
            old(self).entries@.len() == 0 ==> r is None && final(self).active == old(self).active,
            old(self).entries@.len() > 0 ==> {
                let cur = match old(self).active {
                    Some(id) => id,
                    None => old(self).entries@[0].output_id,
                };
                &&& final(self).active == Some(cur)
                &&& match r {
                    Some(i) => first_index_of(old(self).entries@, cur, i as int),
                    None => forall|j: int|
                        0 <= j < old(self).entries@.len() ==> #[trigger] old(self).entries@[j].output_id != cur,
                }
            },
    {
        if self.entries.len() == 0 {
            return None;
        }
        let cur = match self.active {
            Some(id) => id,
            None => self.entries[0].output_id,
        };
        self.active = Some(cur);
        self.index_by_id(cur)
    }

    /// Whether some screen's surface has been configured, so that there is
    /// something to draw on.
    pub fn any_configured(&self) -> (r: bool)
        ensures
            r == exists|j: int| 0 <= j < self.entries@.len() && #[trigger] self.entries@[j].configured,
    {
        let mut i: usize = 0;
        while i < self.entries.len()
            invariant
                i <= self.entries@.len(),
                forall|j: int| 0 <= j < i ==> !#[trigger] self.entries@[j].configured,
            decreases self.entries@.len() - i,
        {
            if self.entries[i].configured {
                return true;
            }
            i += 1;
        }
        false
    }

    /// Adds a new screen, not yet configured.
    pub fn push(&mut self, output_id: u32, surface: T)
        ensures
            final(self).entries@ == old(self).entries@.push(
                OutputEntry { output_id, configured: false, surface },
            ),
            final(self).active == old(self).active,
    {
        self.entries.push(OutputEntry { output_id, configured: false, surface });
    }

    /// Forgets screen `idx`; if the cat was on it, no screen is active any more.
    pub fn remove(&mut self, idx: usize) -> (removed: OutputEntry<T>)
        requires
            idx < old(self).entries@.len(),
        ensures
            removed == old(self).entries@[idx as int],
            final(self).entries@ == old(self).entries@.remove(idx as int),
            final(self).active == if old(self).active == Some(removed.output_id) {
                None
            } else {
                old(self).active
            },
    {
        let removed = self.entries.remove(idx);
        if self.active == Some(removed.output_id) {
            self.active = None;
        }
        removed
    }

    /// Marks the surface of screen `idx` as configured.
    pub fn configure(&mut self, idx: usize)
        requires
            idx < old(self).entries@.len(),
        ensures
            final(self).entries@ == old(self).entries@.update(
                idx as int,
                OutputEntry { configured: true, ..old(self).entries@[idx as int] },
            ),
            final(self).active == old(self).active,
    {
        let mut entry = self.entries.remove(idx);
        entry.configured = true;
        self.entries.insert(idx, entry);
        assert(self.entries@ =~= old(self).entries@.update(
            idx as int,
            OutputEntry { configured: true, ..old(self).entries@[idx as int] },
        ));
    }

    /// Records a new id for screen `idx`.
    pub fn set_id(&mut self, idx: usize, output_id: u32)
        requires
            idx < old(self).entries@.len(),
        ensures
            final(self).entries@ == old(self).entries@.update(
                idx as int,
                OutputEntry { output_id, ..old(self).entries@[idx as int] },
            ),
            final(self).active == old(self).active,
    {
        let mut entry = self.entries.remove(idx);
        entry.output_id = output_id;
        self.entries.insert(idx, entry);
        assert(self.entries@ =~= old(self).entries@.update(
            idx as int,
            OutputEntry { output_id, ..old(self).entries@[idx as int] },
        ));
    }
}

/// The first position of an id is unique, and a position is the first one
/// for `id` exactly when it holds `id` and no earlier one does.
pub proof fn lemma_first_index_unique<T>(entries: Seq<OutputEntry<T>>, id: u32, i: int, j: int)
    ensures
        first_index_of(entries, id, i) && first_index_of(entries, id, j) ==> i == j,
        first_index_of(entries, id, i) ==> entries[i].output_id == id,
        first_index_of(entries, id, i) ==> forall|k: int| 0 <= k < i ==> entries[k].output_id != id,
{
    if first_index_of(entries, id, i) && first_index_of(entries, id, j) {
        if i < j {
            assert(entries[i].output_id != id);
        } else if j < i {
            assert(entries[j].output_id != id);
        }
    }
}

} // verus!
