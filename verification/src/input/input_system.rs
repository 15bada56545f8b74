//! Game actions, their key bindings and the per-frame action state.

use vstd::prelude::*;

verus! {

#[derive(Clone, Copy, Debug, PartialEq, Eq, Hash, Structural)]
pub enum GameAction {
    MoveForward,
    MoveBack,
    MoveLeft,
    MoveRight,
    Sprint,
    Jump,
    Crouch,
    Interact,
    Fire,
    Reload,
    Heal,
    Inventory,
    WorldMap,
    QuickSave,
    QuickLoad,
    Pause,
}

#[derive(Clone, Debug)]
pub struct ActionBinding {
    pub action: GameAction,
    pub primary: String,
    pub secondary: Option<String>,
}

/// The map whose entries are the pairs of `entries`, later pairs winning.
pub open spec fn pairs_to_map(entries: Seq<(GameAction, bool)>) -> Map<GameAction, bool>
    decreases entries.len(),
{
    if entries.len() == 0 {
        Map::empty()
    } else {
        pairs_to_map(entries.drop_last()).insert(entries.last().0, entries.last().1)
    }
}

/// A flag per game action, for the actions that have one.
#[derive(Clone, Debug)]
pub struct ActionMap {
    entries: Vec<(GameAction, bool)>,
}

impl ActionMap {
    pub closed spec fn view(&self) -> Map<GameAction, bool> {
        pairs_to_map(self.entries@)
    }

    pub fn new() -> (map: Self)
        ensures
            map.view() == Map::<GameAction, bool>::empty(),
    {
        ActionMap { entries: Vec::new() }
    }

    /// The flag of `action`, if it has one.
    pub fn get(&self, action: GameAction) -> (flag: Option<bool>)
        ensures
            flag == (if self.view().contains_key(action) {
                Some(self.view()[action])
            } else {
                None
            }),
    {
        let mut i = self.entries.len();
        while i > 0
            invariant
                i <= self.entries@.len(),
                forall|j: int| i <= j < self.entries@.len() ==> self.entries@[j].0 != action,
            decreases i,
        {
            i = i - 1;
            if self.entries[i].0 == action {
                proof {
                    lemma_pairs_to_map_last_wins(self.entries@, i as int);
                }
                return Some(self.entries[i].1);
            }
        }
        proof {
            lemma_pairs_to_map_absent(self.entries@, action);
        }
        None
    }

    /// Sets the flag of `action`.
    pub fn insert(&mut self, action: GameAction, flag: bool)
        ensures
            final(self).view() == old(self).view().insert(action, flag),
    {
        self.entries.push((action, flag));
        assert(self.entries@.drop_last() =~= old(self).entries@);
    }

    /// Removes every flag.
    pub fn clear(&mut self)
        ensures
            final(self).view() == Map::<GameAction, bool>::empty(),
    {
        self.entries.clear();
    }
}

proof fn lemma_pairs_to_map_last_wins(entries: Seq<(GameAction, bool)>, i: int)
    requires
        0 <= i < entries.len(),
        forall|j: int| i < j < entries.len() ==> entries[j].0 != entries[i].0,
    ensures
        pairs_to_map(entries).contains_key(entries[i].0),
        pairs_to_map(entries)[entries[i].0] == entries[i].1,
    decreases entries.len(),
{
    if i < entries.len() - 1 {
        lemma_pairs_to_map_last_wins(entries.drop_last(), i);
    }
}

proof fn lemma_pairs_to_map_absent(entries: Seq<(GameAction, bool)>, a: GameAction)
    requires
        forall|j: int| 0 <= j < entries.len() ==> entries[j].0 != a,
    ensures
        !pairs_to_map(entries).contains_key(a),
    decreases entries.len(),
{
    if entries.len() > 0 {
        lemma_pairs_to_map_absent(entries.drop_last(), a);
    }
}

#[derive(Clone, Debug)]
pub struct InputActions {
    pub active: ActionMap,
    pub just_activated: ActionMap,
}

impl InputActions {
    pub fn new() -> (actions: Self)
        ensures
            actions.active.view() == Map::<GameAction, bool>::empty(),
            actions.just_activated.view() == Map::<GameAction, bool>::empty(),
    {
        InputActions { active: ActionMap::new(), just_activated: ActionMap::new() }
    }

    pub fn is_active(&self, action: GameAction) -> (active: bool)
        ensures
            active == (self.active.view().contains_key(action) && self.active.view()[action]),
    {
        match self.active.get(action) {
            Some(flag) => flag,
            None => false,
        }
    }

    pub fn was_just_activated(&self, action: GameAction) -> (activated: bool)
        ensures
            activated == (self.just_activated.view().contains_key(action)
                && self.just_activated.view()[action]),
    {
        match self.just_activated.get(action) {
            Some(flag) => flag,
            None => false,
        }
    }

    pub fn clear_frame(&mut self)
        ensures
            final(self).just_activated.view() == Map::<GameAction, bool>::empty(),
            final(self).active.view() == old(self).active.view(),
    {
        self.just_activated.clear();
    }
}

impl Default for InputActions {
    fn default() -> (actions: Self)
        ensures
            actions.active.view() == Map::<GameAction, bool>::empty(),
            actions.just_activated.view() == Map::<GameAction, bool>::empty(),
    {
        Self::new()
    }
}

/// The default bindings: action, primary key, secondary key.
pub open spec fn default_binding_table() -> Seq<(GameAction, Seq<char>, Option<Seq<char>>)> {
    seq![
        (GameAction::MoveForward, "KeyW"@, None),
        (GameAction::MoveBack, "KeyS"@, None),
        (GameAction::MoveLeft, "KeyA"@, None),
        (GameAction::MoveRight, "KeyD"@, None),
        (GameAction::Sprint, "ShiftLeft"@, None),
        (GameAction::Jump, "Space"@, None),
        (GameAction::Crouch, "ControlLeft"@, None),
        (GameAction::Interact, "KeyE"@, None),
        (GameAction::Fire, "MouseLeft"@, None),
        (GameAction::Reload, "KeyR"@, None),
        (GameAction::Heal, "KeyH"@, None),
        (GameAction::Inventory, "KeyI"@, Some("Tab"@)),
        (GameAction::WorldMap, "KeyM"@, None),
        (GameAction::QuickSave, "F5"@, None),
        (GameAction::QuickLoad, "F9"@, None),
        (GameAction::Pause, "Escape"@, None),
    ]
}

pub struct InputActionSystem {
    bindings: Vec<ActionBinding>,
}

impl InputActionSystem {
    /// The bindings, in order.
    pub closed spec fn binding_seq(&self) -> Seq<ActionBinding> {
        self.bindings@
    }

    pub fn new() -> (system: Self)
        ensures
            bindings_match_table(system.binding_seq()),
    {
        InputActionSystem { bindings: Self::default_bindings() }
    }

    fn default_bindings() -> (bindings: Vec<ActionBinding>)
        ensures
            bindings_match_table(bindings@),
    {
        vec![
            ActionBinding { action: GameAction::MoveForward, primary: "KeyW".to_string(), secondary: None },
            ActionBinding { action: GameAction::MoveBack, primary: "KeyS".to_string(), secondary: None },
            ActionBinding { action: GameAction::MoveLeft, primary: "KeyA".to_string(), secondary: None },
            ActionBinding { action: GameAction::MoveRight, primary: "KeyD".to_string(), secondary: None },
            ActionBinding { action: GameAction::Sprint, primary: "ShiftLeft".to_string(), secondary: None },
            ActionBinding { action: GameAction::Jump, primary: "Space".to_string(), secondary: None },
            ActionBinding { action: GameAction::Crouch, primary: "ControlLeft".to_string(), secondary: None },
            ActionBinding { action: GameAction::Interact, primary: "KeyE".to_string(), secondary: None },
            ActionBinding { action: GameAction::Fire, primary: "MouseLeft".to_string(), secondary: None },
            ActionBinding { action: GameAction::Reload, primary: "KeyR".to_string(), secondary: None },
            ActionBinding { action: GameAction::Heal, primary: "KeyH".to_string(), secondary: None },
            ActionBinding { action: GameAction::Inventory, primary: "KeyI".to_string(), secondary: Some("Tab".to_string()) },
            ActionBinding { action: GameAction::WorldMap, primary: "KeyM".to_string(), secondary: None },
            ActionBinding { action: GameAction::QuickSave, primary: "F5".to_string(), secondary: None },
            ActionBinding { action: GameAction::QuickLoad, primary: "F9".to_string(), secondary: None },
            ActionBinding { action: GameAction::Pause, primary: "Escape".to_string(), secondary: None },
        ]
    }

    pub fn binding_count(&self) -> (count: usize)
        ensures
            count == self.binding_seq().len(),
    {
        self.bindings.len()
    }
}

/// `bindings` are the default bindings, in order.
pub open spec fn bindings_match_table(bindings: Seq<ActionBinding>) -> bool {
    &&& bindings.len() == default_binding_table().len()
    &&& forall|i: int|
        0 <= i < bindings.len() ==> {
            &&& (#[trigger] bindings[i]).action == default_binding_table()[i].0
            &&& bindings[i].primary@ == default_binding_table()[i].1
            &&& match (bindings[i].secondary, default_binding_table()[i].2) {
                (Some(s), Some(t)) => s@ == t,
                (None, None) => true,
                _ => false,
            }
        }
}

} // verus!
