use vstd::prelude::*;

verus! {

/// The kind of a pane. A selector pane is one option of a shared selector
/// (say, one tab of a tab strip): it names the selector and its own index
/// there. An editable surface carries its own highlight.
#[derive(Clone, Copy, Debug, PartialEq, Eq, Structural)]
pub enum PaneKind {
    Selector { selector: usize, index: usize },
    Editable { highlighted: bool },
}

/// The state of a shared selector: its chosen option, and whether it shows
/// the focused style.
#[derive(Clone, Copy, Debug, PartialEq, Eq, Structural)]
pub struct Selector {
    pub active: usize,
    pub focused: bool,
}

/// The registry as contracts see it: the panes' tags and kinds side by side,
/// and the table of shared selectors that selector panes index into.
pub struct RegistryView {
    pub tags: Seq<Seq<char>>,
    pub kinds: Seq<PaneKind>,
    pub selectors: Seq<Selector>,
}

impl RegistryView {
    pub open spec fn len(self) -> int {
        self.tags.len() as int
    }

    /// A pane kind that may join the panes at hand: a selector pane names an
    /// existing selector, and an option of it that no other pane holds.
    pub open spec fn kind_fits(self, kind: PaneKind) -> bool {
        match kind {
            PaneKind::Selector { selector, index } => {
                &&& selector < self.selectors.len()
                &&& forall|j: int|
                    0 <= j < self.len() ==> #[trigger] self.kinds[j] != (PaneKind::Selector {
                        selector,
                        index,
                    })
            },
            PaneKind::Editable { .. } => true,
        }
    }

    /// Tags are unique, each selector pane names an existing selector, and
    /// no two panes are the same option of one selector.
    pub open spec fn wf(self) -> bool {
        &&& self.kinds.len() == self.tags.len()
        &&& forall|i: int, j: int|
            0 <= i < self.len() && 0 <= j < self.len() && i != j ==> self.tags[i]
                != self.tags[j]
        &&& forall|i: int|
            0 <= i < self.len() ==> match #[trigger] self.kinds[i] {
                PaneKind::Selector { selector, .. } => selector < self.selectors.len(),
                PaneKind::Editable { .. } => true,
            }
        &&& forall|i: int, j: int|
            0 <= i < self.len() && 0 <= j < self.len() && i != j && (
            #[trigger] self.kinds[i]) is Selector && (#[trigger] self.kinds[j]) is Selector
                ==> self.kinds[i] != self.kinds[j]
    }

    pub open spec fn has(self, tag: Seq<char>) -> bool {
        exists|i: int| 0 <= i < self.len() && self.tags[i] == tag
    }

    /// The position of the pane tagged `tag`.
    pub open spec fn index_of(self, tag: Seq<char>) -> int {
        choose|i: int| 0 <= i < self.len() && self.tags[i] == tag
    }

    /// Whether pane `i` shows the selected appearance: an editable surface
    /// by its highlight; a selector pane when its selector is focused and has
    /// the pane's own option chosen.
    pub open spec fn is_selected(self, i: int) -> bool {
        match self.kinds[i] {
            PaneKind::Editable { highlighted } => highlighted,
            PaneKind::Selector { selector, index } => {
                &&& self.selectors[selector as int].focused
                &&& self.selectors[selector as int].active == index
            },
        }
    }

    /// Gives pane `i` the selected appearance. A selector pane chooses its
    /// own option in the shared selector and focuses it.
    pub open spec fn mark_selected(self, i: int) -> RegistryView {
        match self.kinds[i] {
            PaneKind::Editable { .. } => RegistryView {
                kinds: self.kinds.update(i, PaneKind::Editable { highlighted: true }),
                ..self
            },
            PaneKind::Selector { selector, index } => RegistryView {
                selectors: self.selectors.update(
                    selector as int,
                    Selector { active: index, focused: true },
                ),
                ..self
            },
        }
    }

    /// Gives pane `i` the unselected appearance. A selector pane dims its
    /// selector and leaves the chosen option as it is.
    pub open spec fn mark_unselected(self, i: int) -> RegistryView {
        match self.kinds[i] {
            PaneKind::Editable { .. } => RegistryView {
                kinds: self.kinds.update(i, PaneKind::Editable { highlighted: false }),
                ..self
            },
            PaneKind::Selector { selector, .. } => RegistryView {
                selectors: self.selectors.update(
                    selector as int,
                    Selector { active: self.selectors[selector as int].active, focused: false },
                ),
                ..self
            },
        }
    }

    /// No pane shows the selected appearance, nor any selector the focused
    /// style.
    pub open spec fn all_clear(self) -> bool {
        &&& forall|j: int|
            0 <= j < self.len() ==> #[trigger] self.kinds[j] != (PaneKind::Editable {
                highlighted: true,
            })
        &&& forall|s: int| 0 <= s < self.selectors.len() ==> !(#[trigger] self.selectors[s]).focused
    }

    /// The appearance of every pane and selector is the one that focus on
    /// pane `i` calls for.
    pub open spec fn shows_only(self, i: int) -> bool {
        &&& forall|j: int|
            0 <= j < self.len() && j != i ==> #[trigger] self.kinds[j] != (PaneKind::Editable {
                highlighted: true,
            })
        &&& self.kinds[i] is Editable ==> self.kinds[i] == (PaneKind::Editable {
            highlighted: true,
        })
        &&& forall|s: int|
            0 <= s < self.selectors.len() ==> (#[trigger] self.selectors[s]).focused == (
            self.kinds[i] is Selector && self.kinds[i]->selector == s)
        &&& self.kinds[i] is Selector ==> self.selectors[self.kinds[i]->selector as int].active
            == self.kinds[i]->index
    }

    /// The registry with every highlight off and every selector dimmed;
    /// chosen options stay.
    pub open spec fn cleared(self) -> RegistryView {
        RegistryView {
            tags: self.tags,
            kinds: self.kinds.map_values(
                |k: PaneKind|
                    match k {
                        PaneKind::Editable { .. } => PaneKind::Editable { highlighted: false },
                        PaneKind::Selector { .. } => k,
                    },
            ),
            selectors: self.selectors.map_values(
                |s: Selector| Selector { active: s.active, focused: false },
            ),
        }
    }
}

/// The pane registry: owns every pane, keyed by its tag, and the table of
/// selectors that selector panes share.
pub struct Registry {
    tags: Vec<String>,
    kinds: Vec<PaneKind>,
    selectors: Vec<Selector>,
}

impl View for Registry {
    type V = RegistryView;

    closed spec fn view(&self) -> RegistryView {
        RegistryView {
            tags: self.tags@.map_values(|t: String| t@),
            kinds: self.kinds@,
            selectors: self.selectors@,
        }
    }
}

impl Registry {
    pub fn new() -> (r: Registry)
        ensures
            r@.tags.len() == 0,
            r@.kinds.len() == 0,
            r@.selectors.len() == 0,
            r@.wf(),
    {
        Registry { tags: Vec::new(), kinds: Vec::new(), selectors: Vec::new() }
    }

    /// Adds a selector, unfocused, with option `active` chosen, and returns
    /// its number.
    pub fn add_selector(&mut self, active: usize) -> (id: usize)
        requires
            old(self)@.wf(),
        ensures
            id == old(self)@.selectors.len(),
            final(self)@ == (RegistryView {
                selectors: old(self)@.selectors.push(Selector { active, focused: false }),
                ..old(self)@
            }),
            final(self)@.wf(),
    {
        let id = self.selectors.len();
        self.selectors.push(Selector { active, focused: false });
        proof {
            assert(self@.selectors =~= old(self)@.selectors.push(Selector { active, focused: false }));
            assert(self@.tags =~= old(self)@.tags);
        }
        id
    }

    /// Whether `kind` may join the panes: see `RegistryView::kind_fits`.
    pub fn kind_fits(&self, kind: PaneKind) -> (r: bool)
        requires
            self@.wf(),
        ensures
            r == self@.kind_fits(kind),
    {
        match kind {
            PaneKind::Editable { .. } => true,
            PaneKind::Selector { selector, index } => {
                if selector >= self.selectors.len() {
                    return false;
                }
                let mut j: usize = 0;
                while j < self.kinds.len()
                    invariant
                        j <= self.kinds.len(),
                        self@.kinds.len() == self@.tags.len(),
                        kind == (PaneKind::Selector { selector, index }),
                        selector < self.selectors.len(),
                        forall|k: int| 0 <= k < j ==> #[trigger] self.kinds@[k] != kind,
                    decreases self.kinds.len() - j,
                {
                    if let PaneKind::Selector { selector: s, index: k } = self.kinds[j] {
                        if s == selector && k == index {
                            assert(self@.kinds[j as int] == kind);
                            return false;
                        }
                    }
                    j += 1;
                }
                assert(forall|k: int| 0 <= k < self@.len() ==> self@.kinds[k] == self.kinds@[k]);
                true
            },
        }
    }

    /// Adds a pane under `tag`, if no pane has that tag yet and `kind` fits;
    /// tells whether it did.
    pub fn add_pane(&mut self, tag: String, kind: PaneKind) -> (added: bool)
        requires
            old(self)@.wf(),
        ensures
            added == (!old(self)@.has(tag@) && old(self)@.kind_fits(kind)),
            final(self)@ == if added {
                RegistryView {
                    tags: old(self)@.tags.push(tag@),
                    kinds: old(self)@.kinds.push(kind),
                    ..old(self)@
                }
            } else {
                old(self)@
            },
            final(self)@.wf(),
    {
        if self.find(&tag).is_some() || !self.kind_fits(kind) {
            return false;
        }
        let ghost pre = self@;
        self.tags.push(tag);
        self.kinds.push(kind);
        proof {
            assert(self@.tags =~= pre.tags.push(tag@));
            assert(self@.kinds =~= pre.kinds.push(kind));
            let n = pre.len();
            assert forall|i: int| 0 <= i < n implies self@.tags[i] != self@.tags[n] by {
                assert(pre.tags[i] == self@.tags[i]);
            }
        }
        true
    }

    /// The position of the pane tagged `tag`, if there is one.
    pub fn find(&self, tag: &String) -> (r: Option<usize>)
        requires
            self@.wf(),
        ensures
            match r {
                Some(i) => {
                    &&& i < self@.len()
                    &&& self@.tags[i as int] == tag@
                    &&& i == self@.index_of(tag@)
                },
                None => !self@.has(tag@),
            },
    {
        let mut i: usize = 0;
        while i < self.tags.len()
            invariant
                i <= self.tags.len(),
                self@.wf(),
                forall|k: int| 0 <= k < i ==> self@.tags[k] != tag@,
            decreases self.tags.len() - i,
        {
            if self.tags[i] == *tag {
                proof {
                    assert(self@.tags[i as int] == tag@);
                    let j = self@.index_of(tag@);
                    assert(self@.has(tag@));
                    assert(j == i);
                }
                return Some(i);
            }
            i += 1;
        }
        None
    }

    /// The position of the pane tagged `tag`, which the registry holds.
    pub fn pane_index(&self, tag: &String) -> (i: usize)
        requires
            self@.wf(),
            self@.has(tag@),
        ensures
            i == self@.index_of(tag@),
            i < self@.len(),
            self@.tags[i as int] == tag@,
    {
        match self.find(tag) {
            Some(i) => i,
            None => 0,
        }
    }

    pub fn len(&self) -> (n: usize)
        ensures
            n == self@.len(),
    {
        self.tags.len()
    }

    pub fn tag(&self, i: usize) -> (t: &String)
        requires
            i < self@.len(),
        ensures
            t@ == self@.tags[i as int],
    {
        &self.tags[i]
    }

    pub fn kind(&self, i: usize) -> (k: PaneKind)
        requires
            i < self@.len(),
            self@.wf(),
        ensures
            k == self@.kinds[i as int],
    {
        self.kinds[i]
    }

    /// Whether pane `i` shows the selected appearance.
    pub fn is_selected(&self, i: usize) -> (r: bool)
        requires
            self@.wf(),
            i < self@.len(),
        ensures
            r == self@.is_selected(i as int),
    {
        match self.kinds[i] {
            PaneKind::Editable { highlighted } => highlighted,
            PaneKind::Selector { selector, index } => {
                let s = self.selectors[selector];
                s.focused && s.active == index
            },
        }
    }

    pub fn selector_count(&self) -> (n: usize)
        ensures
            n == self@.selectors.len(),
    {
        self.selectors.len()
    }

    pub fn selector(&self, s: usize) -> (r: Selector)
        requires
            s < self@.selectors.len(),
        ensures
            r == self@.selectors[s as int],
    {
        self.selectors[s]
    }

    /// Gives pane `i` the selected appearance.
    pub fn select(&mut self, i: usize)
        requires
            old(self)@.wf(),
            i < old(self)@.len(),
        ensures
            final(self)@ == old(self)@.mark_selected(i as int),
    {
        let ghost pre = self@;
        match self.kinds[i] {
            PaneKind::Editable { .. } => {
                self.kinds.set(i, PaneKind::Editable { highlighted: true });
                proof {
                    assert(self@.kinds =~= pre.mark_selected(i as int).kinds);
                    assert(self@.tags =~= pre.tags);
                }
            },
            PaneKind::Selector { selector, index } => {
                self.selectors.set(selector, Selector { active: index, focused: true });
                proof {
                    assert(self@.selectors =~= pre.mark_selected(i as int).selectors);
                    assert(self@.tags =~= pre.tags);
                }
            },
        }
    }

    /// Gives pane `i` the unselected appearance.
    pub fn unselect(&mut self, i: usize)
        requires
            old(self)@.wf(),
            i < old(self)@.len(),
        ensures
            final(self)@ == old(self)@.mark_unselected(i as int),
    {
        let ghost pre = self@;
        match self.kinds[i] {
            PaneKind::Editable { .. } => {
                self.kinds.set(i, PaneKind::Editable { highlighted: false });
                proof {
                    assert(self@.kinds =~= pre.mark_unselected(i as int).kinds);
                    assert(self@.tags =~= pre.tags);
                }
            },
            PaneKind::Selector { selector, .. } => {
                let active = self.selectors[selector].active;
                self.selectors.set(selector, Selector { active, focused: false });
                proof {
                    assert(self@.selectors =~= pre.mark_unselected(i as int).selectors);
                    assert(self@.tags =~= pre.tags);
                }
            },
        }
    }

    /// Turns every highlight off and dims every selector.
    pub fn clear_marks(&mut self)
        requires
            old(self)@.wf(),
        ensures
            final(self)@ == old(self)@.cleared(),
    {
        let ghost pre = self@;
        let mut j: usize = 0;
        while j < self.kinds.len()
            invariant
                j <= self.kinds.len(),
                self.kinds@.len() == pre.kinds.len(),
                self@.tags == pre.tags,
                self@.selectors == pre.selectors,
                forall|k: int| 0 <= k < j ==> #[trigger] self.kinds@[k] == pre.cleared().kinds[k],
                forall|k: int| j <= k < self.kinds@.len() ==> #[trigger] self.kinds@[k] == pre.kinds[k],
            decreases self.kinds.len() - j,
        {
            if let PaneKind::Editable { .. } = self.kinds[j] {
                self.kinds.set(j, PaneKind::Editable { highlighted: false });
            }
            j += 1;
        }
        let mut s: usize = 0;
        while s < self.selectors.len()
            invariant
                s <= self.selectors.len(),
                self.selectors@.len() == pre.selectors.len(),
                self@.tags == pre.tags,
                self@.kinds =~= pre.cleared().kinds,
                forall|k: int| 0 <= k < s ==> #[trigger] self.selectors@[k] == pre.cleared().selectors[k],
                forall|k: int| s <= k < self.selectors@.len() ==> #[trigger] self.selectors@[k] == pre.selectors[k],
            decreases self.selectors.len() - s,
        {
            let active = self.selectors[s].active;
            self.selectors.set(s, Selector { active, focused: false });
            s += 1;
        }
        proof {
            assert(self@.selectors =~= pre.cleared().selectors);
        }
    }
}

/// Clearing the marks keeps the registry sound and leaves nothing selected.
pub proof fn lemma_cleared(v: RegistryView)
    requires
        v.wf(),
    ensures
        v.cleared().wf(),
        v.cleared().all_clear(),
        v.cleared().tags == v.tags,
        v.cleared().selectors.len() == v.selectors.len(),
{
    let w = v.cleared();
    assert forall|i: int| 0 <= i < w.len() implies (#[trigger] w.kinds[i] is Selector) == (
    v.kinds[i] is Selector) && (w.kinds[i] is Selector ==> w.kinds[i] == v.kinds[i]) by {}
}

/// Selecting a selector pane sets its selector's chosen option to the pane's
/// own index; selecting an editable surface changes no selector, and
/// unselecting any pane changes no chosen option.
pub proof fn lemma_selection_sets_own_index(v: RegistryView, i: int)
    requires
        v.wf(),
        0 <= i < v.len(),
    ensures
        match v.kinds[i] {
            PaneKind::Selector { selector, index } => {
                &&& v.mark_selected(i).selectors[selector as int].active == index
                &&& forall|s: int|
                    0 <= s < v.selectors.len() && s != selector ==> #[trigger] v.mark_selected(
                        i,
                    ).selectors[s] == v.selectors[s]
            },
            PaneKind::Editable { .. } => v.mark_selected(i).selectors == v.selectors,
        },
        v.mark_selected(i).selectors.len() == v.selectors.len(),
        forall|s: int|
            0 <= s < v.selectors.len() ==> (#[trigger] v.mark_unselected(i).selectors[s]).active
                == v.selectors[s].active,
{
}

/// Focus on pane `i` leaves exactly that pane with the selected appearance.
pub proof fn lemma_shows_only_one(v: RegistryView, i: int)
    requires
        v.wf(),
        0 <= i < v.len(),
        v.shows_only(i),
    ensures
        forall|j: int| 0 <= j < v.len() ==> (v.is_selected(j) <==> j == i),
{
    assert forall|j: int| 0 <= j < v.len() implies (v.is_selected(j) <==> j == i) by {
        if j != i && v.kinds[j] is Selector && v.kinds[i] is Selector {
            assert(v.kinds[i] != v.kinds[j]);
        }
    }
}

/// Unselecting the one focused pane clears every highlight and focus.
pub proof fn lemma_unselect_clears(v: RegistryView, i: int)
    requires
        v.wf(),
        0 <= i < v.len(),
        v.shows_only(i),
    ensures
        v.mark_unselected(i).all_clear(),
        v.mark_unselected(i).wf(),
{
    let w = v.mark_unselected(i);
    assert forall|i1: int, j1: int|
        0 <= i1 < w.len() && 0 <= j1 < w.len() && i1 != j1 && (
        #[trigger] w.kinds[i1]) is Selector && (#[trigger] w.kinds[j1]) is Selector
        implies w.kinds[i1] != w.kinds[j1] by {
        assert(v.kinds[i1] is Selector && v.kinds[j1] is Selector);
    }
}

/// Selecting a pane of a cleared registry makes focus rest on that pane.
pub proof fn lemma_select_shows_only(v: RegistryView, i: int)
    requires
        v.wf(),
        0 <= i < v.len(),
        v.all_clear(),
    ensures
        v.mark_selected(i).shows_only(i),
        v.mark_selected(i).wf(),
{
    let w = v.mark_selected(i);
    assert forall|i1: int, j1: int|
        0 <= i1 < w.len() && 0 <= j1 < w.len() && i1 != j1 && (
        #[trigger] w.kinds[i1]) is Selector && (#[trigger] w.kinds[j1]) is Selector
        implies w.kinds[i1] != w.kinds[j1] by {
        assert(v.kinds[i1] is Selector && v.kinds[j1] is Selector);
    }
}

} // verus!
