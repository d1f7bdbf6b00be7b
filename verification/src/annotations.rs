//! Attributes attached to a declaration through its documentation comment.

use vstd::prelude::*;
use vstd::string::*;
use crate::text::{split, split_spec, str_eq, views};

verus! {

/// What a bag of annotations holds, as a mathematical value.
pub struct AnnotationsView {
    pub hidden: bool,
    pub opaque: bool,
    pub use_instead_of: Option<Seq<Seq<char>>>,
    pub other: Seq<(Seq<char>, Seq<char>)>,
}

/// The pairs of `v`, each string by its characters.
pub open spec fn pair_views(v: Seq<(String, String)>) -> Seq<(Seq<char>, Seq<char>)> {
    Seq::new(v.len(), |i: int| (v[i].0@, v[i].1@))
}

/// Whether a tag of a documentation comment carries annotations: it is a
/// `div` whose first attribute is `rustbindgen`.
pub open spec fn is_marked(tag: Seq<char>, attributes: Seq<(Seq<char>, Seq<char>)>) -> bool {
    tag == "div"@ && attributes.len() > 0 && attributes[0].0 == "rustbindgen"@
}

/// The bag `a` with one attribute more.
///
/// - `hide` hides the item, `opaque` makes it a blob.
/// - `replaces` names the path of the declaration that the item replaces,
///   its segments separated by `::`.
/// - `rustbindgen` is the mark itself and adds nothing.
/// - Any other attribute is kept as it is.
pub open spec fn with_attribute(
    a: AnnotationsView,
    name: Seq<char>,
    value: Seq<char>,
) -> AnnotationsView {
    if name == "opaque"@ {
        AnnotationsView { opaque: true, ..a }
    } else if name == "hide"@ {
        AnnotationsView { hidden: true, ..a }
    } else if name == "replaces"@ {
        AnnotationsView { use_instead_of: Some(split_spec(value, "::"@)), ..a }
    } else if name == "rustbindgen"@ {
        a
    } else {
        AnnotationsView { other: a.other.push((name, value)), ..a }
    }
}

/// The bag `a` with each of `attributes` added in turn.
pub open spec fn with_attributes(
    a: AnnotationsView,
    attributes: Seq<(Seq<char>, Seq<char>)>,
) -> AnnotationsView
    decreases attributes.len(),
{
    if attributes.len() == 0 {
        a
    } else {
        with_attribute(
            with_attributes(a, attributes.drop_last()),
            attributes.last().0,
            attributes.last().1,
        )
    }
}

/// The bag `a` with what the tag carries, if the tag is marked.
pub open spec fn with_tag(
    a: AnnotationsView,
    tag: Seq<char>,
    attributes: Seq<(Seq<char>, Seq<char>)>,
) -> AnnotationsView {
    if is_marked(tag, attributes) {
        with_attributes(a, attributes)
    } else {
        a
    }
}

/// The tags of `tags`, each string by its characters.
pub open spec fn tag_views(tags: Seq<(String, Vec<(String, String)>)>) -> Seq<
    (Seq<char>, Seq<(Seq<char>, Seq<char>)>),
> {
    Seq::new(tags.len(), |i: int| (tags[i].0@, pair_views(tags[i].1@)))
}

/// The bag `a` with what each of `tags` carries, in turn.
pub open spec fn with_tags(
    a: AnnotationsView,
    tags: Seq<(Seq<char>, Seq<(Seq<char>, Seq<char>)>)>,
) -> AnnotationsView
    decreases tags.len(),
{
    if tags.len() == 0 {
        a
    } else {
        with_tag(with_tags(a, tags.drop_last()), tags.last().0, tags.last().1)
    }
}

/// Whether one of `tags` is marked.
pub open spec fn any_marked(tags: Seq<(Seq<char>, Seq<(Seq<char>, Seq<char>)>)>) -> bool {
    exists|i: int| 0 <= i < tags.len() && is_marked((#[trigger] tags[i]).0, tags[i].1)
}

/// The empty bag.
pub open spec fn no_annotations() -> AnnotationsView {
    AnnotationsView { hidden: false, opaque: false, use_instead_of: None, other: Seq::empty() }
}

/// The attribute bag of an item.
#[derive(Debug, Clone)]
pub struct Annotations {
    /// The item is left out of the generated bindings.
    pub hidden: bool,
    /// The item is generated as a blob of its size and alignment.
    pub opaque: bool,
    /// The path of the declaration that this item replaces.
    pub use_instead_of: Option<Vec<String>>,
    /// Attributes that the core keeps and does not interpret.
    pub other: Vec<(String, String)>,
}

impl Annotations {
    /// The empty bag: nothing hidden, nothing opaque, nothing replaced.
    pub fn new() -> (r: Self)
        ensures
            !r.hidden,
            !r.opaque,
            r.use_instead_of is None,
            r.other@.len() == 0,
    {
        Annotations { hidden: false, opaque: false, use_instead_of: None, other: Vec::new() }
    }

    /// What this bag holds.
    pub open spec fn view(&self) -> AnnotationsView {
        AnnotationsView {
            hidden: self.hidden,
            opaque: self.opaque,
            use_instead_of: match self.use_instead_of {
                Some(path) => Some(views(path@)),
                None => None,
            },
            other: pair_views(self.other@),
        }
    }

    /// Adds one attribute of a marked tag to this bag.
    pub fn apply_attribute(&mut self, name: &str, value: &str)
        ensures
            final(self)@ == with_attribute(old(self)@, name@, value@),
    {
        if str_eq(name, "opaque") {
            self.opaque = true;
        } else if str_eq(name, "hide") {
            self.hidden = true;
        } else if str_eq(name, "replaces") {
            proof {
                reveal_strlit("::");
            }
            self.use_instead_of = Some(split(value, "::"));
        } else if str_eq(name, "rustbindgen") {
        } else {
            self.other.push((String::from_str(name), String::from_str(value)));
            assert(pair_views(self.other@) =~= pair_views(old(self).other@).push((name@, value@)));
        }
    }

    /// Adds what a tag of a documentation comment carries to this bag, and
    /// says whether the tag was marked as carrying annotations.
    pub fn apply_tag(&mut self, tag: &str, attributes: &Vec<(String, String)>) -> (matched: bool)
        ensures
            matched == is_marked(tag@, pair_views(attributes@)),
            final(self)@ == with_tag(old(self)@, tag@, pair_views(attributes@)),
    {
        if !str_eq(tag, "div") || attributes.len() == 0 || !str_eq(
            attributes[0].0.as_str(),
            "rustbindgen",
        ) {
            return false;
        }
        let mut i: usize = 0;
        assert(pair_views(attributes@).take(0) =~= Seq::empty());
        while i < attributes.len()
            invariant
                i <= attributes@.len(),
                self@ == with_attributes(old(self)@, pair_views(attributes@).take(i as int)),
            decreases attributes@.len() - i,
        {
            self.apply_attribute(attributes[i].0.as_str(), attributes[i].1.as_str());
            i += 1;
            proof {
                let all = pair_views(attributes@);
                assert(all.take(i as int).drop_last() =~= all.take(i - 1));
                assert(all.take(i as int).last() == all[i - 1]);
            }
        }
        assert(pair_views(attributes@).take(i as int) =~= pair_views(attributes@));
        true
    }

    /// The annotations that the tags of a documentation comment carry, or
    /// `None` if none of the tags is marked as carrying any.
    pub fn from_tags(tags: &Vec<(String, Vec<(String, String)>)>) -> (r: Option<Self>)
        ensures
            r is Some == any_marked(tag_views(tags@)),
            r is Some ==> r->0@ == with_tags(no_annotations(), tag_views(tags@)),
    {
        let mut a = Annotations::new();
        let mut matched = false;
        let mut i: usize = 0;
        assert(tag_views(tags@).take(0) =~= Seq::empty());
        assert(a@.other =~= Seq::empty());
        while i < tags.len()
            invariant
                i <= tags@.len(),
                a@ == with_tags(no_annotations(), tag_views(tags@).take(i as int)),
                matched == any_marked(tag_views(tags@).take(i as int)),
            decreases tags@.len() - i,
        {
            let ghost before = tag_views(tags@).take(i as int);
            let m = a.apply_tag(tags[i].0.as_str(), &tags[i].1);
            i += 1;
            proof {
                let all = tag_views(tags@);
                let now = all.take(i as int);
                assert(now.drop_last() =~= before);
                assert(now.last() == all[i - 1]);
                if m {
                    assert(is_marked(now[i - 1].0, now[i - 1].1));
                }
                if any_marked(now) && !m {
                    let k = choose|k: int| 0 <= k < now.len()
                        && is_marked((#[trigger] now[k]).0, now[k].1);
                    assert(before[k] == now[k]);
                }
                if matched {
                    let k = choose|k: int|
                        0 <= k < before.len() && is_marked((#[trigger] before[k]).0, before[k].1);
                    assert(now[k] == before[k]);
                }
            }
            matched = matched || m;
        }
        assert(tag_views(tags@).take(i as int) =~= tag_views(tags@));
        if matched {
            Some(a)
        } else {
            None
        }
    }

    /// Whether `other` holds what this bag holds.
    pub open spec fn same_as(&self, other: &Annotations) -> bool {
        &&& self.hidden == other.hidden
        &&& self.opaque == other.opaque
        &&& self.use_instead_of is Some == other.use_instead_of is Some
        &&& self.use_instead_of is Some ==> crate::text::views(self.use_instead_of->0@)
            == crate::text::views(other.use_instead_of->0@)
        &&& self.other@.len() == other.other@.len()
        &&& forall|k: int|
            0 <= k < self.other@.len() ==> (#[trigger] self.other@[k]).0@ == other.other@[k].0@
                && self.other@[k].1@ == other.other@[k].1@
    }

    /// A copy of this bag.
    pub fn duplicate(&self) -> (r: Self)
        ensures
            r.same_as(self),
    {
        let use_instead_of = match &self.use_instead_of {
            Some(path) => Some(crate::text::clone_strings(path)),
            None => None,
        };
        let mut other: Vec<(String, String)> = Vec::new();
        let mut i: usize = 0;
        while i < self.other.len()
            invariant
                i <= self.other@.len(),
                other@.len() == i,
                forall|k: int|
                    0 <= k < i ==> (#[trigger] other@[k]).0@ == self.other@[k].0@ && other@[k].1@
                        == self.other@[k].1@,
            decreases self.other@.len() - i,
        {
            other.push((self.other[i].0.clone(), self.other[i].1.clone()));
            i += 1;
        }
        Annotations { hidden: self.hidden, opaque: self.opaque, use_instead_of, other }
    }

    /// Whether the item is to be hidden.
    pub fn hidden(&self) -> (r: bool)
        ensures
            r == self.hidden,
    {
        self.hidden
    }

    /// Whether the item is to be treated as opaque.
    pub fn opaque(&self) -> (r: bool)
        ensures
            r == self.opaque,
    {
        self.opaque
    }

    /// The path that this item replaces, if any.
    pub fn use_instead_of(&self) -> (r: Option<&Vec<String>>)
        ensures
            r is Some == self.use_instead_of is Some,
            r is Some ==> *r->0 == self.use_instead_of->0,
    {
        self.use_instead_of.as_ref()
    }
}

} // verus!
