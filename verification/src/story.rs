//! The story model: a story is a keyed set of scenes, each scene a keyed set
//! of items, all immutable after construction.

use vstd::prelude::*;
use crate::text::{lower_of, lowercase};

verus! {

/// A describable object belonging to exactly one scene.
#[derive(Debug, Clone, PartialEq, Eq)]
pub struct Item {
    pub name: String,
    pub description: String,
}

/// A named location with a description and zero or more items, keyed by
/// name. Keys are case-sensitive as stored; lookup is case-insensitive.
#[derive(Debug, Clone, PartialEq, Eq)]
pub struct Scene {
    pub name: String,
    pub description: String,
    pub items: Vec<(String, Item)>,
    pub is_first_scene: bool,
}

/// The complete set of scenes, keyed by name: the root aggregate, built once
/// at startup and read-only afterwards.
#[derive(Debug, Clone, PartialEq, Eq)]
pub struct Story {
    pub scenes: Vec<(String, Scene)>,
}

/// Raised by `Story::initial_scene` when no scene is flagged as the first.
#[derive(Debug, Clone, Copy, PartialEq, Eq)]
pub struct NoStartSceneError;

/// No two entries share a key (comparison is on the stored, case-sensitive
/// key): what a keyed mapping guarantees of its entries.
pub open spec fn distinct_keys<T>(entries: Seq<(String, T)>) -> bool {
    forall|i: int, j: int| 0 <= i < j < entries.len() ==> entries[i].0@ != entries[j].0@
}

/// Checks that no two entries share a key.
pub fn check_distinct_keys<T>(entries: &Vec<(String, T)>) -> (r: bool)
    ensures
        r == distinct_keys(entries@),
{
    let mut i: usize = 0;
    while i < entries.len()
        invariant
            i <= entries@.len(),
            forall|p: int, q: int| 0 <= p < q < entries@.len() && p < i ==> entries@[p].0@
                != entries@[q].0@,
        decreases entries@.len() - i,
    {
        let mut j: usize = i + 1;
        while j < entries.len()
            invariant
                i < j <= entries@.len() || entries@.len() == 0,
                i < entries@.len() ==> i < j,
                forall|q: int| i < q < j ==> entries@[i as int].0@ != entries@[q].0@,
            decreases entries@.len() - j,
        {
            if entries[i].0 == entries[j].0 {
                return false;
            }
            j = j + 1;
        }
        i = i + 1;
    }
    true
}

/// The description of the first item whose key lowercases to `lterm`, or the
/// empty sequence when no key does.
pub open spec fn item_lookup(items: Seq<(String, Item)>, lterm: Seq<char>) -> Seq<char>
    decreases items.len(),
{
    if items.len() == 0 {
        Seq::empty()
    } else if lower_of(items[0].0@) == lterm {
        items[0].1.description@
    } else {
        item_lookup(items.drop_first(), lterm)
    }
}

impl Scene {
    /// A scene is well formed when its item keys are distinct.
    pub open spec fn wf(self) -> bool {
        distinct_keys(self.items@)
    }

    /// What describing `term` in this scene yields: the scene's own
    /// description when `term` is the scene's name (case-insensitively, and
    /// checked before any item), else the description of the first item
    /// whose key matches, else the empty sequence.
    pub open spec fn describe_spec(self, term: Seq<char>) -> Seq<char> {
        if lower_of(term) == lower_of(self.name@) {
            self.description@
        } else {
            item_lookup(self.items@, lower_of(term))
        }
    }

    /// Builds a scene, refusing duplicate item keys.
    pub fn new(name: String, description: String, items: Vec<(String, Item)>, is_first_scene: bool)
        -> (r: Option<Scene>)
        ensures
            match r {
                Some(s) => s == (Scene { name, description, items, is_first_scene }) && s.wf(),
                None => !distinct_keys(items@),
            },
            r is Some <==> distinct_keys(items@),
    {
        if check_distinct_keys(&items) {
            Some(Scene { name, description, items, is_first_scene })
        } else {
            None
        }
    }

    /// Resolves one term against this scene, case-insensitively: the scene's
    /// description for the scene's own name, an item's description for an
    /// item key, and the empty string for anything else.
    pub fn describe(&self, item_name: String) -> (r: &str)
        ensures
            r@ == self.describe_spec(item_name@),
    {
        proof {
            reveal_strlit("");
        }
        let term = lowercase(item_name.as_str());
        let own = lowercase(self.name.as_str());
        if term == own {
            return self.description.as_str();
        }
        let mut i: usize = 0;
        proof {
            assert(self.items@.skip(0) =~= self.items@);
        }
        while i < self.items.len()
            invariant
                i <= self.items@.len(),
                term@ == lower_of(item_name@),
                lower_of(item_name@) != lower_of(self.name@),
                item_lookup(self.items@, lower_of(item_name@)) == item_lookup(
                    self.items@.skip(i as int),
                    lower_of(item_name@),
                ),
            decreases self.items@.len() - i,
        {
            let key = lowercase(self.items[i].0.as_str());
            proof {
                assert(self.items@.skip(i as int).drop_first() =~= self.items@.skip(i + 1));
                assert(self.items@.skip(i as int)[0] == self.items@[i as int]);
            }
            if key == term {
                proof {
                    assert(item_lookup(self.items@.skip(i as int), lower_of(item_name@))
                        == self.items@[i as int].1.description@);
                }
                return self.items[i].1.description.as_str();
            }
            proof {
                assert(item_lookup(self.items@.skip(i as int), lower_of(item_name@))
                    == item_lookup(self.items@.skip(i + 1), lower_of(item_name@)));
            }
            i = i + 1;
        }
        proof {
            assert(self.items@.skip(i as int) =~= Seq::<(String, Item)>::empty());
        }
        ""
    }
}

/// No item key of `items` lowercases to `lterm`: the lookup yields the
/// empty sequence.
proof fn lemma_item_lookup_none(items: Seq<(String, Item)>, lterm: Seq<char>)
    requires
        forall|k: int| 0 <= k < items.len() ==> lower_of(#[trigger] items[k].0@) != lterm,
    ensures
        item_lookup(items, lterm) == Seq::<char>::empty(),
    decreases items.len(),
{
    if items.len() > 0 {
        assert(forall|k: int| 0 <= k < items.drop_first().len() ==> #[trigger] items.drop_first()[
            k] == items[k + 1]);
        lemma_item_lookup_none(items.drop_first(), lterm);
    }
}

/// A term that names neither the scene nor any of its items describes as the
/// empty string: an unknown term is never an error and never a default
/// message.
pub proof fn lemma_unknown_term_empty(scene: Scene, term: Seq<char>)
    requires
        lower_of(term) != lower_of(scene.name@),
        forall|k: int| 0 <= k < scene.items@.len() ==> lower_of(#[trigger] scene.items@[k].0@)
            != lower_of(term),
    ensures
        scene.describe_spec(term) == Seq::<char>::empty(),
{
    lemma_item_lookup_none(scene.items@, lower_of(term));
}

/// Describing is case-insensitive: two terms with the same lowercase form
/// describe identically.
pub proof fn lemma_describe_case_insensitive(scene: Scene, t1: Seq<char>, t2: Seq<char>)
    requires
        lower_of(t1) == lower_of(t2),
    ensures
        scene.describe_spec(t1) == scene.describe_spec(t2),
{
}

/// Describing the scene's own name yields the scene's description, even when
/// an item shares that name: the scene's name is checked before the items.
pub proof fn lemma_scene_name_precedence(scene: Scene, term: Seq<char>)
    requires
        lower_of(term) == lower_of(scene.name@),
    ensures
        scene.describe_spec(term) == scene.description@,
{
}

/// Whether some scene entry is flagged as the first scene.
pub open spec fn has_first_scene(scenes: Seq<(String, Scene)>) -> bool {
    exists|i: int| 0 <= i < scenes.len() && scenes[i].1.is_first_scene
}

/// The position of the first entry flagged as the first scene.
pub open spec fn first_scene_index(scenes: Seq<(String, Scene)>) -> int
    decreases scenes.len(),
{
    if scenes.len() == 0 {
        0
    } else if scenes[0].1.is_first_scene {
        0
    } else {
        1 + first_scene_index(scenes.drop_first())
    }
}

/// `first_scene_index` names a flagged entry, and the earliest one.
pub proof fn lemma_first_scene_index(scenes: Seq<(String, Scene)>)
    requires
        has_first_scene(scenes),
    ensures
        0 <= first_scene_index(scenes) < scenes.len(),
        scenes[first_scene_index(scenes)].1.is_first_scene,
        forall|j: int| 0 <= j < first_scene_index(scenes) ==> !scenes[j].1.is_first_scene,
    decreases scenes.len(),
{
    if scenes.len() > 0 && !scenes[0].1.is_first_scene {
        let i = choose|i: int| 0 <= i < scenes.len() && scenes[i].1.is_first_scene;
        assert(scenes.drop_first()[i - 1].1.is_first_scene);
        lemma_first_scene_index(scenes.drop_first());
        assert(forall|j: int| 1 <= j < scenes.len() ==> #[trigger] scenes[j]
            == scenes.drop_first()[j - 1]);
        assert(first_scene_index(scenes) == 1 + first_scene_index(scenes.drop_first()));
    }
}

/// When exactly one scene is flagged as the first, `first_scene_index` picks
/// exactly that scene.
pub proof fn lemma_unique_first_scene(scenes: Seq<(String, Scene)>, k: int)
    requires
        0 <= k < scenes.len(),
        scenes[k].1.is_first_scene,
        forall|j: int| 0 <= j < scenes.len() && j != k ==> !scenes[j].1.is_first_scene,
    ensures
        first_scene_index(scenes) == k,
{
    lemma_first_scene_index(scenes);
    let f = first_scene_index(scenes);
    if f != k {
        assert(!scenes[f].1.is_first_scene);
    }
}

impl Story {
    /// A story is well formed when its scene keys are distinct and every
    /// scene is well formed.
    pub open spec fn wf(self) -> bool {
        &&& distinct_keys(self.scenes@)
        &&& forall|i: int| 0 <= i < self.scenes@.len() ==> (#[trigger] self.scenes@[i].1).wf()
    }

    /// Builds a story, refusing duplicate scene keys and duplicate item keys
    /// within any scene.
    pub fn new(scenes: Vec<(String, Scene)>) -> (r: Option<Story>)
        ensures
            match r {
                Some(s) => s == (Story { scenes }) && s.wf(),
                None => !(Story { scenes }).wf(),
            },
            r is Some <==> (Story { scenes }).wf(),
    {
        let mut i: usize = 0;
        while i < scenes.len()
            invariant
                i <= scenes@.len(),
                forall|k: int| 0 <= k < i ==> (#[trigger] scenes@[k].1).wf(),
            decreases scenes@.len() - i,
        {
            if !check_distinct_keys(&scenes[i].1.items) {
                return None;
            }
            i = i + 1;
        }
        if check_distinct_keys(&scenes) {
            Some(Story { scenes })
        } else {
            None
        }
    }

    /// Returns the first scene flagged `is_first_scene`, scanning entries in
    /// order, or `NoStartSceneError` when no scene is flagged.
    pub fn initial_scene(&self) -> (r: Result<&Scene, NoStartSceneError>)
        ensures
            r is Ok <==> has_first_scene(self.scenes@),
            r is Ok ==> *r->Ok_0 == self.scenes@[first_scene_index(self.scenes@)].1,
    {
        let mut i: usize = 0;
        while i < self.scenes.len()
            invariant
                i <= self.scenes@.len(),
                forall|k: int| 0 <= k < i ==> !(#[trigger] self.scenes@[k].1).is_first_scene,
            decreases self.scenes@.len() - i,
        {
            if self.scenes[i].1.is_first_scene {
                proof {
                    lemma_unique_first_scene_prefix(self.scenes@, i as int);
                }
                return Ok(&self.scenes[i].1);
            }
            i = i + 1;
        }
        Err(NoStartSceneError)
    }
}

/// The first flagged position after a prefix of unflagged entries is the
/// first scene's index.
proof fn lemma_unique_first_scene_prefix(scenes: Seq<(String, Scene)>, k: int)
    requires
        0 <= k < scenes.len(),
        scenes[k].1.is_first_scene,
        forall|j: int| 0 <= j < k ==> !(#[trigger] scenes[j].1).is_first_scene,
    ensures
        first_scene_index(scenes) == k,
        has_first_scene(scenes),
    decreases k,
{
    if k > 0 {
        assert(scenes.drop_first()[k - 1] == scenes[k]);
        assert(forall|j: int| 0 <= j < k - 1 ==> scenes.drop_first()[j] == scenes[j + 1]);
        lemma_unique_first_scene_prefix(scenes.drop_first(), k - 1);
    }
}

} // verus!
