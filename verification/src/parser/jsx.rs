//! The custom component family: line recognizers for each component kind,
//! the register of open components, and the structured guide model that is
//! serialized into the generated preamble.
use vstd::prelude::*;
use vstd::string::*;

use crate::parser::inline::{attrs_lookup, pairs_view, spec_attrs};
use crate::parser::tags::{
    parse_closing_html_tag, parse_opening_html_tag, parse_opening_html_tag_end,
    parse_opening_html_tag_start, parse_self_closing_html_tag, parse_self_closing_html_tag_end,
    spec_closing_tag, spec_opening_tag, spec_opening_tag_end, spec_opening_tag_start,
    spec_self_closing_tag, spec_self_closing_tag_end,
};
use crate::parser::{HTMLTagType, LineType, MdError};
use crate::text::{
    char_is, eq_str, find_ix, find_sub, lemma_find_ix, lemma_find_sub, occurs_at, spec_find_sub,
    starts_with_at,
};
use crate::text::{push_char, spec_dec_str, u64_to_string, usize_to_string};
use crate::utility::stack::Stack;

verus! {

/// The component kinds tracked by the register and the present-kind set.
#[derive(Clone, Copy, Debug, PartialEq, Eq, Hash, Structural)]
pub enum JSXComponentType {
    CodeFragment,
    CodeFragmentOpening,
    FencedCodeBlock,
    GatsbyNotMaintained,
    HowTo,
    HowToOpening,
    HowToSection,
    HowToSectionOpening,
    HowToStep,
    HowToStepOpening,
    HowToDirection,
    HowToDirectionOpening,
    Image,
    Poll,
    PollOpening,
    Questions,
    Tweet,
    Video,
    VideoOpening,
}

/// How far a component tag on one line got.
#[derive(Clone, Copy, Debug, PartialEq, Eq, Hash, Structural)]
pub enum JSXTagType {
    SelfClosed,
    Opened,
    Closed,
}

/// One direction of a guide step.
pub struct HowToDirectionComponent {
    pub text: String,
}

impl HowToDirectionComponent {
    /// A direction with the given text.
    pub fn new(text: &str) -> (r: HowToDirectionComponent)
        ensures
            r.text@ == text@,
    {
        HowToDirectionComponent { text: text.to_owned() }
    }
}

/// One step of a guide section.
pub struct HowToStepComponent {
    pub name: String,
    pub image: Option<String>,
    pub video: Option<String>,
    pub start: Option<u64>,
    pub end: Option<u64>,
    pub directions: Vec<HowToDirectionComponent>,
}

impl HowToStepComponent {
    /// A fresh step: empty name, no media, no directions.
    pub fn new() -> (r: HowToStepComponent)
        ensures
            r.name@ == Seq::<char>::empty(),
            r.image is None,
            r.video is None,
            r.start is None,
            r.end is None,
            r.directions@ == Seq::<HowToDirectionComponent>::empty(),
    {
        HowToStepComponent {
            name: String::new(),
            image: None,
            video: None,
            start: None,
            end: None,
            directions: Vec::new(),
        }
    }

    /// Sets the step name.
    pub fn set_name(&mut self, name: &str)
        ensures
            final(self).name@ == name@,
            final(self).image == old(self).image,
            final(self).video == old(self).video,
            final(self).start == old(self).start,
            final(self).end == old(self).end,
            final(self).directions == old(self).directions,
    {
        self.name = name.to_owned();
    }

    /// Sets the step image.
    pub fn set_image(&mut self, image: &str)
        ensures
            final(self).image matches Some(v) && v@ == image@,
            final(self).name == old(self).name,
            final(self).video == old(self).video,
            final(self).start == old(self).start,
            final(self).end == old(self).end,
            final(self).directions == old(self).directions,
    {
        self.image = Some(image.to_owned());
    }

    /// Sets the step video.
    pub fn set_video(&mut self, video: &str)
        ensures
            final(self).video matches Some(v) && v@ == video@,
            final(self).name == old(self).name,
            final(self).image == old(self).image,
            final(self).start == old(self).start,
            final(self).end == old(self).end,
            final(self).directions == old(self).directions,
    {
        self.video = Some(video.to_owned());
    }

    /// Sets the video start timestamp.
    pub fn set_start(&mut self, start: u64)
        ensures
            final(self).start == Some(start),
            final(self).name == old(self).name,
            final(self).image == old(self).image,
            final(self).video == old(self).video,
            final(self).end == old(self).end,
            final(self).directions == old(self).directions,
    {
        self.start = Some(start);
    }

    /// Sets the video end timestamp.
    pub fn set_end(&mut self, end: u64)
        ensures
            final(self).end == Some(end),
            final(self).name == old(self).name,
            final(self).image == old(self).image,
            final(self).video == old(self).video,
            final(self).start == old(self).start,
            final(self).directions == old(self).directions,
    {
        self.end = Some(end);
    }

    /// Appends a direction and returns its 1-based position, which is the
    /// new direction count.
    pub fn add_direction(&mut self, text: &str) -> (r: usize)
        ensures
            final(self).directions@.len() == old(self).directions@.len() + 1,
            final(self).directions@.last().text@ == text@,
            final(self).directions@.drop_last() == old(self).directions@,
            r == final(self).directions@.len(),
            final(self).name == old(self).name,
            final(self).image == old(self).image,
            final(self).video == old(self).video,
            final(self).start == old(self).start,
            final(self).end == old(self).end,
    {
        self.directions.push(HowToDirectionComponent::new(text));
        self.directions.len()
    }
}

/// One section of a guide.
pub struct HowToSectionComponent {
    pub name: String,
    pub steps: Vec<HowToStepComponent>,
}

impl HowToSectionComponent {
    /// A named section with no steps.
    pub fn new(name: &str) -> (r: HowToSectionComponent)
        ensures
            r.name@ == name@,
            r.steps@ == Seq::<HowToStepComponent>::empty(),
    {
        HowToSectionComponent { name: name.to_owned(), steps: Vec::new() }
    }

    /// Appends a fresh step and returns its 1-based position, which is the
    /// new step count.
    pub fn add_step(&mut self) -> (r: usize)
        ensures
            final(self).steps@.len() == old(self).steps@.len() + 1,
            final(self).steps@.drop_last() == old(self).steps@,
            final(self).steps@.last().name@ == Seq::<char>::empty(),
            final(self).steps@.last().image is None,
            final(self).steps@.last().video is None,
            final(self).steps@.last().start is None,
            final(self).steps@.last().end is None,
            final(self).steps@.last().directions@ == Seq::<HowToDirectionComponent>::empty(),
            r == final(self).steps@.len(),
            final(self).name == old(self).name,
    {
        self.steps.push(HowToStepComponent::new());
        self.steps.len()
    }
}

/// Replaces the value of `k` among ordered unique-key pairs, or appends the
/// pair when the key is new.
pub open spec fn spec_prop_insert(
    ps: Seq<(Seq<char>, Seq<char>)>,
    k: Seq<char>,
    v: Seq<char>,
) -> Seq<(Seq<char>, Seq<char>)>
    decreases ps.len(),
{
    if ps.len() == 0 {
        seq![(k, v)]
    } else if ps[0].0 == k {
        seq![(k, v)] + ps.drop_first()
    } else {
        seq![ps[0]] + spec_prop_insert(ps.drop_first(), k, v)
    }
}

/// The guide model: ordered properties with unique keys, and the ordered
/// sections with their steps and directions; positions are always derived
/// from list lengths, never stored.
pub struct HowToComponent {
    pub props: Vec<(String, String)>,
    pub sections: Vec<HowToSectionComponent>,
}

impl HowToComponent {
    /// An empty guide model.
    pub fn new() -> (r: HowToComponent)
        ensures
            r.props@ == Seq::<(String, String)>::empty(),
            r.sections@ == Seq::<HowToSectionComponent>::empty(),
    {
        HowToComponent { props: Vec::new(), sections: Vec::new() }
    }

    /// Appends a named section and returns its 1-based position, which is
    /// the new section count.
    pub fn add_section(&mut self, name: &str) -> (r: usize)
        ensures
            final(self).sections@.len() == old(self).sections@.len() + 1,
            final(self).sections@.drop_last() == old(self).sections@,
            final(self).sections@.last().name@ == name@,
            final(self).sections@.last().steps@ == Seq::<HowToStepComponent>::empty(),
            r == final(self).sections@.len(),
            final(self).props == old(self).props,
    {
        self.sections.push(HowToSectionComponent::new(name));
        self.sections.len()
    }

    /// Appends a fresh step to the last section and returns the section's
    /// 1-based position and the step's 1-based position within it; `None`
    /// when no section is open yet.
    pub fn add_step(&mut self) -> (r: Option<(usize, usize)>)
        ensures
            match r {
                Some((sp, p)) => old(self).sections@.len() > 0 && sp == old(self).sections@.len()
                    && final(self).sections@.len() == old(self).sections@.len() && final(self).sections@.drop_last() == old(self).sections@.drop_last() && final(self).sections@.last().name == old(self).sections@.last().name && final(self).sections@.last().steps@.drop_last() == old(self).sections@.last().steps@ && final(self).sections@.last().steps@.len() == old(self).sections@.last().steps@.len() + 1 && p
                    == final(self).sections@.last().steps@.len() && step_is_default(
                    final(self).sections@.last().steps@.last(),
                ) && final(self).props == old(self).props,
                None => old(self).sections@.len() == 0 && guide_unchanged(*old(self), *final(self)),
            },
    {
        let section_position = self.sections.len();
        match self.sections.pop() {
            None => None,
            Some(mut last) => {
                let p = last.add_step();
                self.sections.push(last);
                proof {
                    assert(self.sections@.drop_last() =~= old(self).sections@.drop_last());
                    assert(self.sections@.last().steps@.drop_last() =~= old(
                        self,
                    ).sections@.last().steps@);
                }
                Some((section_position, p))
            },
        }
    }

    /// Takes out the last step of the last section for updating; `None`
    /// when no step is open.
    fn take_last_step(&mut self) -> (r: Option<HowToStepComponent>)
        ensures
            match r {
                Some(st) => old(self).sections@.len() > 0 && old(self).sections@.last().steps@.len() > 0 && st == old(self).sections@.last().steps@.last() && final(self).props == old(self).props && final(self).sections@.len() == old(self).sections@.len() && final(self).sections@.drop_last()
                    == old(self).sections@.drop_last() && final(self).sections@.last().name == old(self).sections@.last().name && final(self).sections@.last().steps@ == old(self).sections@.last().steps@.drop_last(),
                None => guide_unchanged(*old(self), *final(self)) && (old(self).sections@.len() == 0 || old(self).sections@.last().steps@.len() == 0),
            },
    {
        match self.sections.pop() {
            None => None,
            Some(mut last) => {
                if last.steps.len() == 0 {
                    self.sections.push(last);
                    proof {
                        assert(self.sections@ =~= old(self).sections@);
                    }
                    None
                } else {
                    match last.steps.pop() {
                        Some(step) => {
                            self.sections.push(last);
                            proof {
                                assert(self.sections@.drop_last() =~= old(
                                    self,
                                ).sections@.drop_last());
                            }
                            Some(step)
                        },
                        None => {
                            proof {
                                assert(false);
                            }
                            None
                        },
                    }
                }
            },
        }
    }

    /// Puts an updated step back as the last step of the last section.
    fn put_last_step(&mut self, step: HowToStepComponent)
        requires
            old(self).sections@.len() > 0,
        ensures
            final(self).props == old(self).props,
            final(self).sections@.len() == old(self).sections@.len(),
            final(self).sections@.drop_last() == old(self).sections@.drop_last(),
            final(self).sections@.last().name == old(self).sections@.last().name,
            final(self).sections@.last().steps@ == old(self).sections@.last().steps@.push(step),
    {
        match self.sections.pop() {
            None => {
            },
            Some(mut last) => {
                last.steps.push(step);
                self.sections.push(last);
                proof {
                    assert(self.sections@.drop_last() =~= old(self).sections@.drop_last());
                }
            },
        }
    }

    /// Sets the name of the last step of the last section; `false` when no
    /// step is open, leaving the model unchanged.
    pub fn add_step_name(&mut self, name: &str) -> (r: bool)
        ensures
            !r ==> guide_unchanged(*old(self), *final(self)) && (old(self).sections@.len() == 0
                || old(self).sections@.last().steps@.len() == 0),
            r ==> guide_step_upd(*old(self), *final(self)) && ({
                let sn = last_step(*final(self));
                let so = last_step(*old(self));
                sn.name@ == name@ && sn.image == so.image && sn.video == so.video && sn.start
                    == so.start && sn.end == so.end && sn.directions == so.directions
            }),
    {
        match self.take_last_step() {
            None => false,
            Some(mut step) => {
                step.set_name(name);
                self.put_last_step(step);
                proof {
                    assert(self.sections@.last().steps@.drop_last() =~= old(self).sections@.last().steps@.drop_last());
                }
                true
            },
        }
    }

    /// Sets the image of the last step of the last section; `false` when no
    /// step is open, leaving the model unchanged.
    pub fn add_step_image(&mut self, image: &str) -> (r: bool)
        ensures
            !r ==> guide_unchanged(*old(self), *final(self)) && (old(self).sections@.len() == 0
                || old(self).sections@.last().steps@.len() == 0),
            r ==> guide_step_upd(*old(self), *final(self)) && ({
                let sn = last_step(*final(self));
                let so = last_step(*old(self));
                sn.image matches Some(v) && v@ == image@ && sn.name == so.name && sn.video
                    == so.video && sn.start == so.start && sn.end == so.end && sn.directions
                    == so.directions
            }),
    {
        match self.take_last_step() {
            None => false,
            Some(mut step) => {
                step.set_image(image);
                self.put_last_step(step);
                proof {
                    assert(self.sections@.last().steps@.drop_last() =~= old(self).sections@.last().steps@.drop_last());
                }
                true
            },
        }
    }

    /// Sets the video of the last step of the last section; `false` when no
    /// step is open, leaving the model unchanged.
    pub fn add_step_video(&mut self, video: &str) -> (r: bool)
        ensures
            !r ==> guide_unchanged(*old(self), *final(self)) && (old(self).sections@.len() == 0
                || old(self).sections@.last().steps@.len() == 0),
            r ==> guide_step_upd(*old(self), *final(self)) && ({
                let sn = last_step(*final(self));
                let so = last_step(*old(self));
                sn.video matches Some(v) && v@ == video@ && sn.name == so.name && sn.image
                    == so.image && sn.start == so.start && sn.end == so.end && sn.directions
                    == so.directions
            }),
    {
        match self.take_last_step() {
            None => false,
            Some(mut step) => {
                step.set_video(video);
                self.put_last_step(step);
                proof {
                    assert(self.sections@.last().steps@.drop_last() =~= old(self).sections@.last().steps@.drop_last());
                }
                true
            },
        }
    }

    /// Sets the start timestamp of the last step of the last section;
    /// `false` when no step is open, leaving the model unchanged.
    pub fn add_step_start(&mut self, start: u64) -> (r: bool)
        ensures
            !r ==> guide_unchanged(*old(self), *final(self)) && (old(self).sections@.len() == 0
                || old(self).sections@.last().steps@.len() == 0),
            r ==> guide_step_upd(*old(self), *final(self)) && ({
                let sn = last_step(*final(self));
                let so = last_step(*old(self));
                sn.start == Some(start) && sn.name == so.name && sn.image == so.image && sn.video
                    == so.video && sn.end == so.end && sn.directions == so.directions
            }),
    {
        match self.take_last_step() {
            None => false,
            Some(mut step) => {
                step.set_start(start);
                self.put_last_step(step);
                proof {
                    assert(self.sections@.last().steps@.drop_last() =~= old(self).sections@.last().steps@.drop_last());
                }
                true
            },
        }
    }

    /// Sets the end timestamp of the last step of the last section; `false`
    /// when no step is open, leaving the model unchanged.
    pub fn add_step_end(&mut self, end: u64) -> (r: bool)
        ensures
            !r ==> guide_unchanged(*old(self), *final(self)) && (old(self).sections@.len() == 0
                || old(self).sections@.last().steps@.len() == 0),
            r ==> guide_step_upd(*old(self), *final(self)) && ({
                let sn = last_step(*final(self));
                let so = last_step(*old(self));
                sn.end == Some(end) && sn.name == so.name && sn.image == so.image && sn.video
                    == so.video && sn.start == so.start && sn.directions == so.directions
            }),
    {
        match self.take_last_step() {
            None => false,
            Some(mut step) => {
                step.set_end(end);
                self.put_last_step(step);
                proof {
                    assert(self.sections@.last().steps@.drop_last() =~= old(self).sections@.last().steps@.drop_last());
                }
                true
            },
        }
    }

    /// Appends a direction to the last step of the last section and returns
    /// its 1-based position; `None` when no step is open.
    pub fn add_direction(&mut self, text: &str) -> (r: Option<usize>)
        ensures
            match r {
                None => guide_unchanged(*old(self), *final(self)) && (old(
                    self,
                ).sections@.len() == 0 || old(self).sections@.last().steps@.len() == 0),
                Some(p) => guide_step_upd(*old(self), *final(self)) && ({
                    let sn = last_step(*final(self));
                    let so = last_step(*old(self));
                    sn.directions@.len() == so.directions@.len() + 1 && p == sn.directions@.len()
                        && sn.directions@.drop_last() == so.directions@ && sn.directions@.last().text@
                        == text@ && sn.name == so.name && sn.image == so.image && sn.video
                        == so.video && sn.start == so.start && sn.end == so.end
                }),
            },
    {
        match self.take_last_step() {
            None => None,
            Some(mut step) => {
                let p = step.add_direction(text);
                self.put_last_step(step);
                proof {
                    assert(self.sections@.last().steps@.drop_last() =~= old(self).sections@.last().steps@.drop_last());
                }
                Some(p)
            },
        }
    }

    /// Inserts a guide-level property: replaces the value of an existing
    /// key, else appends the pair, keeping insertion order and unique keys.
    pub fn insert_prop(&mut self, key: &str, value: &str)
        ensures
            pairs_view(final(self).props@) == spec_prop_insert(
                pairs_view(old(self).props@),
                key@,
                value@,
            ),
            final(self).sections == old(self).sections,
    {
        let n = self.props.len();
        let mut i: usize = 0;
        while i < n
            invariant
                i <= n,
                n == self.props@.len(),
                *self == *old(self),
                forall|j: int| 0 <= j < i ==> pairs_view(self.props@)[j].0 != key@,
            decreases n - i,
        {
            if crate::text::eq_str(self.props[i].0.as_str(), key) {
                let kv = (key.to_owned(), value.to_owned());
                self.props.set(i, kv);
                proof {
                    lemma_prop_insert_at(pairs_view(old(self).props@), key@, value@, i as int);
                    assert(pairs_view(self.props@) =~= pairs_view(old(self).props@).update(i as int, (key@, value@)));
                }
                return ;
            }
            i = i + 1;
        }
        let kv = (key.to_owned(), value.to_owned());
        self.props.push(kv);
        proof {
            lemma_prop_insert_missing(pairs_view(old(self).props@), key@, value@);
            assert(pairs_view(self.props@) =~= pairs_view(old(self).props@) + seq![(key@, value@)]);
        }
    }
}

/// The model is unchanged, compared by views.
pub open spec fn guide_unchanged(o: HowToComponent, n: HowToComponent) -> bool {
    n.props == o.props && n.sections@ == o.sections@
}

/// The last section's last step was replaced, everything else kept.
pub open spec fn guide_step_upd(o: HowToComponent, n: HowToComponent) -> bool {
    &&& n.props == o.props
    &&& o.sections@.len() > 0
    &&& o.sections@.last().steps@.len() > 0
    &&& n.sections@.len() == o.sections@.len()
    &&& n.sections@.drop_last() == o.sections@.drop_last()
    &&& n.sections@.last().name == o.sections@.last().name
    &&& n.sections@.last().steps@.len() == o.sections@.last().steps@.len()
    &&& n.sections@.last().steps@.drop_last() == o.sections@.last().steps@.drop_last()
}

/// The last step of the last section.
pub open spec fn last_step(h: HowToComponent) -> HowToStepComponent {
    h.sections@.last().steps@.last()
}

proof fn lemma_prop_insert_at(ps: Seq<(Seq<char>, Seq<char>)>, k: Seq<char>, v: Seq<char>, i: int)
    requires
        0 <= i < ps.len(),
        ps[i].0 == k,
        forall|j: int| 0 <= j < i ==> ps[j].0 != k,
    ensures
        spec_prop_insert(ps, k, v) == ps.update(i, (k, v)),
    decreases ps.len(),
{
    if i == 0 {
        assert(spec_prop_insert(ps, k, v) =~= ps.update(0, (k, v)));
    } else {
        lemma_prop_insert_at(ps.drop_first(), k, v, i - 1);
        assert(spec_prop_insert(ps, k, v) =~= ps.update(i, (k, v)));
    }
}

proof fn lemma_prop_insert_missing(ps: Seq<(Seq<char>, Seq<char>)>, k: Seq<char>, v: Seq<char>)
    requires
        forall|j: int| 0 <= j < ps.len() ==> ps[j].0 != k,
    ensures
        spec_prop_insert(ps, k, v) == ps + seq![(k, v)],
    decreases ps.len(),
{
    if ps.len() == 0 {
        assert(spec_prop_insert(ps, k, v) =~= ps + seq![(k, v)]);
    } else {
        lemma_prop_insert_missing(ps.drop_first(), k, v);
        assert(spec_prop_insert(ps, k, v) =~= ps + seq![(k, v)]);
    }
}

} // verus!

verus! {

/// The serialized lines of one direction at its 1-based position.
pub open spec fn spec_dir_lines(d: HowToDirectionComponent, pos: int) -> Seq<Seq<char>> {
    seq![
        "            {"@,
        "              text: \""@ + d.text@ + "\","@,
        "              position: "@ + spec_dec_str(pos) + ","@,
        "            }"@,
    ]
}

/// The serialized lines of the directions from index `i` on.
pub open spec fn spec_dirs_lines(ds: Seq<HowToDirectionComponent>, i: int) -> Seq<Seq<char>>
    decreases ds.len() - i,
{
    if i < 0 || i >= ds.len() {
        Seq::empty()
    } else {
        spec_dir_lines(ds[i], i + 1) + spec_dirs_lines(ds, i + 1)
    }
}

/// The serialized lines of one step at its 1-based position; optional
/// media fields appear only when set.
pub open spec fn spec_step_lines(st: HowToStepComponent, pos: int) -> Seq<Seq<char>> {
    seq![
        "        {"@,
        "          name: \""@ + st.name@ + "\","@,
        "          position: "@ + spec_dec_str(pos) + ","@,
    ] + (match st.image {
        Some(v) => seq!["          image: \""@ + v@ + "\","@],
        None => Seq::empty(),
    }) + (match st.video {
        Some(v) => seq!["          video: \""@ + v@ + "\","@],
        None => Seq::empty(),
    }) + (match st.start {
        Some(v) => seq!["          start: "@ + spec_dec_str(v as int) + ","@],
        None => Seq::empty(),
    }) + (match st.end {
        Some(v) => seq!["          end: "@ + spec_dec_str(v as int) + ","@],
        None => Seq::empty(),
    }) + seq!["          directions: ["@] + spec_dirs_lines(st.directions@, 0) + seq![
        "          ],"@,
        "        },"@,
    ]
}

/// The serialized lines of the steps from index `i` on.
pub open spec fn spec_steps_lines(ss: Seq<HowToStepComponent>, i: int) -> Seq<Seq<char>>
    decreases ss.len() - i,
{
    if i < 0 || i >= ss.len() {
        Seq::empty()
    } else {
        spec_step_lines(ss[i], i + 1) + spec_steps_lines(ss, i + 1)
    }
}

/// The serialized lines of one section at its 1-based position.
pub open spec fn spec_section_lines(s: HowToSectionComponent, pos: int) -> Seq<Seq<char>> {
    seq![
        "    {"@,
        "      name: \""@ + s.name@ + "\","@,
        "      position: "@ + spec_dec_str(pos) + ","@,
        "      steps: ["@,
    ] + spec_steps_lines(s.steps@, 0) + seq!["      ],"@, "    },"@]
}

/// The serialized lines of the sections from index `i` on.
pub open spec fn spec_sections_lines(ss: Seq<HowToSectionComponent>, i: int) -> Seq<Seq<char>>
    decreases ss.len() - i,
{
    if i < 0 || i >= ss.len() {
        Seq::empty()
    } else {
        spec_section_lines(ss[i], i + 1) + spec_sections_lines(ss, i + 1)
    }
}

/// The object-literal serialization of a whole guide model: name and
/// description properties when present, then every section in order.
pub open spec fn spec_howto_markup(h: HowToComponent) -> Seq<Seq<char>> {
    seq!["const howTo = {"@] + (match attrs_lookup(pairs_view(h.props@), "name"@) {
        Some(v) => seq!["  name: \""@ + v + "\","@],
        None => Seq::empty(),
    }) + (match attrs_lookup(pairs_view(h.props@), "description"@) {
        Some(v) => seq!["  description: \""@ + v + "\","@],
        None => Seq::empty(),
    }) + seq!["  sections: ["@] + spec_sections_lines(h.sections@, 0) + seq!["  ],"@, "};"@]
}

fn emit_direction(out: &mut Vec<String>, d: &HowToDirectionComponent, pos: usize)
    ensures
        crate::text::strings_view(final(out)@) == crate::text::strings_view(old(out)@)
            + spec_dir_lines(*d, pos as int),
{
    crate::text::push_line(out, "            {");
    let mut l1 = String::new();
    l1.append("              text: \"");
    l1.append(d.text.as_str());
    l1.append("\",");
    crate::text::push_line(out, l1.as_str());
    let p = usize_to_string(pos);
    let mut l2 = String::new();
    l2.append("              position: ");
    l2.append(p.as_str());
    l2.append(",");
    crate::text::push_line(out, l2.as_str());
    crate::text::push_line(out, "            }");
    proof {
        assert(crate::text::strings_view(out@) =~= crate::text::strings_view(old(out)@)
            + spec_dir_lines(*d, pos as int));
    }
}

fn emit_directions(out: &mut Vec<String>, ds: &Vec<HowToDirectionComponent>)
    ensures
        crate::text::strings_view(final(out)@) == crate::text::strings_view(old(out)@)
            + spec_dirs_lines(ds@, 0),
{
    let n = ds.len();
    let mut i: usize = 0;
    proof {
        assert(crate::text::strings_view(out@) + spec_dirs_lines(ds@, 0)
            =~= crate::text::strings_view(old(out)@) + spec_dirs_lines(ds@, 0));
    }
    while i < n
        invariant
            i <= n,
            n == ds@.len(),
            crate::text::strings_view(out@) + spec_dirs_lines(ds@, i as int)
                == crate::text::strings_view(old(out)@) + spec_dirs_lines(ds@, 0),
        decreases n - i,
    {
        let ghost before = crate::text::strings_view(out@);
        emit_direction(out, &ds[i], i + 1);
        proof {
            assert((before + spec_dir_lines(ds@[i as int], i + 1)) + spec_dirs_lines(
                ds@,
                i + 1,
            ) =~= before + spec_dirs_lines(ds@, i as int));
        }
        i = i + 1;
    }
    proof {
        assert(crate::text::strings_view(out@) + spec_dirs_lines(ds@, n as int)
            =~= crate::text::strings_view(out@));
    }
}

fn emit_step(out: &mut Vec<String>, st: &HowToStepComponent, pos: usize)
    ensures
        crate::text::strings_view(final(out)@) == crate::text::strings_view(old(out)@)
            + spec_step_lines(*st, pos as int),
{
    crate::text::push_line(out, "        {");
    let mut l1 = String::new();
    l1.append("          name: \"");
    l1.append(st.name.as_str());
    l1.append("\",");
    crate::text::push_line(out, l1.as_str());
    let p = usize_to_string(pos);
    let mut l2 = String::new();
    l2.append("          position: ");
    l2.append(p.as_str());
    l2.append(",");
    crate::text::push_line(out, l2.as_str());
    match &st.image {
        Some(v) => {
            let mut l = String::new();
            l.append("          image: \"");
            l.append(v.as_str());
            l.append("\",");
            crate::text::push_line(out, l.as_str());
        },
        None => {},
    }
    match &st.video {
        Some(v) => {
            let mut l = String::new();
            l.append("          video: \"");
            l.append(v.as_str());
            l.append("\",");
            crate::text::push_line(out, l.as_str());
        },
        None => {},
    }
    match &st.start {
        Some(v) => {
            let d = u64_to_string(*v);
            let mut l = String::new();
            l.append("          start: ");
            l.append(d.as_str());
            l.append(",");
            crate::text::push_line(out, l.as_str());
        },
        None => {},
    }
    match &st.end {
        Some(v) => {
            let d = u64_to_string(*v);
            let mut l = String::new();
            l.append("          end: ");
            l.append(d.as_str());
            l.append(",");
            crate::text::push_line(out, l.as_str());
        },
        None => {},
    }
    crate::text::push_line(out, "          directions: [");
    emit_directions(out, &st.directions);
    crate::text::push_line(out, "          ],");
    crate::text::push_line(out, "        },");
    proof {
        assert(crate::text::strings_view(out@) =~= crate::text::strings_view(old(out)@)
            + spec_step_lines(*st, pos as int));
    }
}

fn emit_steps(out: &mut Vec<String>, ss: &Vec<HowToStepComponent>)
    ensures
        crate::text::strings_view(final(out)@) == crate::text::strings_view(old(out)@)
            + spec_steps_lines(ss@, 0),
{
    let n = ss.len();
    let mut i: usize = 0;
    proof {
        assert(crate::text::strings_view(out@) + spec_steps_lines(ss@, 0)
            =~= crate::text::strings_view(old(out)@) + spec_steps_lines(ss@, 0));
    }
    while i < n
        invariant
            i <= n,
            n == ss@.len(),
            crate::text::strings_view(out@) + spec_steps_lines(ss@, i as int)
                == crate::text::strings_view(old(out)@) + spec_steps_lines(ss@, 0),
        decreases n - i,
    {
        let ghost before = crate::text::strings_view(out@);
        emit_step(out, &ss[i], i + 1);
        proof {
            assert((before + spec_step_lines(ss@[i as int], i + 1)) + spec_steps_lines(
                ss@,
                i + 1,
            ) =~= before + spec_steps_lines(ss@, i as int));
        }
        i = i + 1;
    }
    proof {
        assert(crate::text::strings_view(out@) + spec_steps_lines(ss@, n as int)
            =~= crate::text::strings_view(out@));
    }
}

fn emit_section(out: &mut Vec<String>, s: &HowToSectionComponent, pos: usize)
    ensures
        crate::text::strings_view(final(out)@) == crate::text::strings_view(old(out)@)
            + spec_section_lines(*s, pos as int),
{
    crate::text::push_line(out, "    {");
    let mut l1 = String::new();
    l1.append("      name: \"");
    l1.append(s.name.as_str());
    l1.append("\",");
    crate::text::push_line(out, l1.as_str());
    let p = usize_to_string(pos);
    let mut l2 = String::new();
    l2.append("      position: ");
    l2.append(p.as_str());
    l2.append(",");
    crate::text::push_line(out, l2.as_str());
    crate::text::push_line(out, "      steps: [");
    emit_steps(out, &s.steps);
    crate::text::push_line(out, "      ],");
    crate::text::push_line(out, "    },");
    proof {
        assert(crate::text::strings_view(out@) =~= crate::text::strings_view(old(out)@)
            + spec_section_lines(*s, pos as int));
    }
}

fn emit_sections(out: &mut Vec<String>, ss: &Vec<HowToSectionComponent>)
    ensures
        crate::text::strings_view(final(out)@) == crate::text::strings_view(old(out)@)
            + spec_sections_lines(ss@, 0),
{
    let n = ss.len();
    let mut i: usize = 0;
    proof {
        assert(crate::text::strings_view(out@) + spec_sections_lines(ss@, 0)
            =~= crate::text::strings_view(old(out)@) + spec_sections_lines(ss@, 0));
    }
    while i < n
        invariant
            i <= n,
            n == ss@.len(),
            crate::text::strings_view(out@) + spec_sections_lines(ss@, i as int)
                == crate::text::strings_view(old(out)@) + spec_sections_lines(ss@, 0),
        decreases n - i,
    {
        let ghost before = crate::text::strings_view(out@);
        emit_section(out, &ss[i], i + 1);
        proof {
            assert((before + spec_section_lines(ss@[i as int], i + 1)) + spec_sections_lines(
                ss@,
                i + 1,
            ) =~= before + spec_sections_lines(ss@, i as int));
        }
        i = i + 1;
    }
    proof {
        assert(crate::text::strings_view(out@) + spec_sections_lines(ss@, n as int)
            =~= crate::text::strings_view(out@));
    }
}

impl HowToComponent {
    /// Serializes the guide model into the object-literal lines appended to
    /// the generated preamble.
    pub fn astro_frontmatter_markup(&self) -> (r: Vec<String>)
        ensures
            crate::text::strings_view(r@) == spec_howto_markup(*self),
    {
        let mut out: Vec<String> = Vec::new();
        crate::text::push_line(&mut out, "const howTo = {");
        match crate::parser::inline::attrs_get(&self.props, "name") {
            Some(v) => {
                let mut l = String::new();
                l.append("  name: \"");
                l.append(v.as_str());
                l.append("\",");
                crate::text::push_line(&mut out, l.as_str());
            },
            None => {},
        }
        match crate::parser::inline::attrs_get(&self.props, "description") {
            Some(v) => {
                let mut l = String::new();
                l.append("  description: \"");
                l.append(v.as_str());
                l.append("\",");
                crate::text::push_line(&mut out, l.as_str());
            },
            None => {},
        }
        crate::text::push_line(&mut out, "  sections: [");
        emit_sections(&mut out, &self.sections);
        crate::text::push_line(&mut out, "  ],");
        crate::text::push_line(&mut out, "};");
        proof {
            assert(crate::text::strings_view(out@) =~= spec_howto_markup(*self));
        }
        out
    }
}

} // verus!

verus! {

/// A new section was appended to the model, everything else kept.
pub open spec fn section_added(h: HowToComponent, h2: HowToComponent, name: Seq<char>) -> bool {
    &&& h2.props == h.props
    &&& h2.sections@.len() == h.sections@.len() + 1
    &&& h2.sections@.drop_last() == h.sections@
    &&& h2.sections@.last().name@ == name
    &&& h2.sections@.last().steps@.len() == 0
}

/// The register of open components: the stack the dispatcher consults, and
/// the guide model grown while a guide is open.
pub struct JSXComponentRegister {
    pub components: Stack<JSXComponentType>,
    pub how_to: Option<HowToComponent>,
}

impl JSXComponentRegister {
    /// An empty register: nothing open, no guide model yet.
    pub fn new() -> (r: JSXComponentRegister)
        ensures
            r.components@ == Seq::<JSXComponentType>::empty(),
            r.how_to is None,
    {
        JSXComponentRegister { components: Stack::new(), how_to: None }
    }

    /// The component on top of the open-component stack.
    pub fn peek(&self) -> (r: Option<&JSXComponentType>)
        ensures
            match r {
                Some(x) => self.components@.len() > 0 && *x == self.components@.last(),
                None => self.components@.len() == 0,
            },
    {
        self.components.peek()
    }

    /// Pops the open-component stack.
    pub fn pop(&mut self) -> (r: Option<JSXComponentType>)
        ensures
            final(self).how_to == old(self).how_to,
            match r {
                Some(x) => old(self).components@.len() > 0 && x == old(self).components@.last()
                    && final(self).components@ == old(self).components@.drop_last(),
                None => old(self).components@.len() == 0 && final(self).components@ == old(
                    self,
                ).components@,
            },
    {
        self.components.pop()
    }

    /// Pushes a component onto the open-component stack.
    pub fn push(&mut self, component: JSXComponentType)
        ensures
            final(self).how_to == old(self).how_to,
            final(self).components@ == old(self).components@.push(component),
    {
        self.components.push(component)
    }

    /// Appends a section to the guide model; `None` when no guide is open.
    pub fn add_how_to_section(&mut self, name: &str) -> (r: Option<usize>)
        ensures
            final(self).components@ == old(self).components@,
            match old(self).how_to {
                None => r is None && final(self).how_to is None,
                Some(h) => final(self).how_to matches Some(h2) && section_added(h, h2, name@)
                    && (r matches Some(p) && p == h2.sections@.len()),
            },
    {
        match &mut self.how_to {
            None => None,
            Some(h) => Some(h.add_section(name)),
        }
    }

    /// Appends a step to the guide model's last section and returns the
    /// section's and the step's 1-based positions; `None` when no guide or
    /// no section is open.
    pub fn add_how_to_step(&mut self) -> (r: Option<(usize, usize)>)
        ensures
            final(self).components@ == old(self).components@,
            old(self).how_to is None ==> r is None && final(self).how_to is None,
            old(self).how_to matches Some(h) ==> final(self).how_to matches Some(h2) && (match r {
                Some((sp, p)) => h.sections@.len() > 0 && sp == h.sections@.len()
                    && guide_step_upd_appended(h, h2) && p == h2.sections@.last().steps@.len(),
                None => h.sections@.len() == 0 && guide_unchanged(h, h2),
            }),
    {
        match &mut self.how_to {
            None => None,
            Some(h) => h.add_step(),
        }
    }

    /// Names the guide model's last step; `false` when none is open.
    pub fn add_how_to_step_name(&mut self, name: &str) -> (r: bool)
        ensures
            final(self).components@ == old(self).components@,
            old(self).how_to is None ==> !r && final(self).how_to is None,
            !r ==> match old(self).how_to {
                Some(h) => h.sections@.len() == 0 || h.sections@.last().steps@.len() == 0,
                None => true,
            },
            old(self).how_to matches Some(h) ==> final(self).how_to matches Some(h2) && (if r {
                guide_step_upd(h, h2) && last_step(h2).name@ == name@ && last_step(h2).directions
                    == last_step(h).directions && last_step(h2).image == last_step(h).image
                    && last_step(h2).video == last_step(h).video && last_step(h2).start
                    == last_step(h).start && last_step(h2).end == last_step(h).end
            } else {
                guide_unchanged(h, h2)
            }),
    {
        match &mut self.how_to {
            None => false,
            Some(h) => h.add_step_name(name),
        }
    }

    /// Records the guide model's last step image; `false` when none is open.
    pub fn add_how_to_step_image(&mut self, image: &str) -> (r: bool)
        ensures
            final(self).components@ == old(self).components@,
            old(self).how_to is None ==> !r && final(self).how_to is None,
            !r ==> match old(self).how_to {
                Some(h) => h.sections@.len() == 0 || h.sections@.last().steps@.len() == 0,
                None => true,
            },
            old(self).how_to matches Some(h) ==> final(self).how_to matches Some(h2) && (if r {
                guide_step_upd(h, h2) && last_step(h2).directions == last_step(h).directions && (
                last_step(h2).image matches Some(v) && v@ == image@) && last_step(h2).name
                    == last_step(h).name && last_step(h2).video == last_step(h).video && last_step(
                    h2,
                ).start == last_step(h).start && last_step(h2).end == last_step(h).end
            } else {
                guide_unchanged(h, h2)
            }),
    {
        match &mut self.how_to {
            None => false,
            Some(h) => h.add_step_image(image),
        }
    }

    /// Records the guide model's last step video; `false` when none is open.
    pub fn add_how_to_step_video(&mut self, video: &str) -> (r: bool)
        ensures
            final(self).components@ == old(self).components@,
            old(self).how_to is None ==> !r && final(self).how_to is None,
            !r ==> match old(self).how_to {
                Some(h) => h.sections@.len() == 0 || h.sections@.last().steps@.len() == 0,
                None => true,
            },
            old(self).how_to matches Some(h) ==> final(self).how_to matches Some(h2) && (if r {
                guide_step_upd(h, h2) && last_step(h2).directions == last_step(h).directions && (
                last_step(h2).video matches Some(v) && v@ == video@) && last_step(h2).name
                    == last_step(h).name && last_step(h2).image == last_step(h).image && last_step(
                    h2,
                ).start == last_step(h).start && last_step(h2).end == last_step(h).end
            } else {
                guide_unchanged(h, h2)
            }),
    {
        match &mut self.how_to {
            None => false,
            Some(h) => h.add_step_video(video),
        }
    }

    /// Reads a start timestamp and records it on the last step; `None` when
    /// the text is not an unsigned decimal number.
    pub fn add_how_to_step_start(&mut self, start: &str) -> (r: Option<bool>)
        ensures
            final(self).components@ == old(self).components@,
            crate::text::spec_parse_u64(start@) is None <==> r is None,
            r is None ==> final(self).how_to == old(self).how_to,
            r == Some(false) ==> match old(self).how_to {
                Some(h) => h.sections@.len() == 0 || h.sections@.last().steps@.len() == 0,
                None => true,
            },
            r is Some ==> match old(self).how_to {
                None => r == Some(false) && final(self).how_to is None,
                Some(h) => final(self).how_to matches Some(h2) && (if r == Some(true) {
                    guide_step_upd(h, h2) && last_step(h2).directions == last_step(h).directions
                        && (last_step(h2).start matches Some(v) && Some(v as int)
                        == crate::text::spec_parse_u64(start@)) && last_step(h2).name == last_step(
                        h,
                    ).name && last_step(h2).image == last_step(h).image && last_step(h2).video
                        == last_step(h).video && last_step(h2).end == last_step(h).end
                } else {
                    guide_unchanged(h, h2)
                }),
            },
    {
        let v = match crate::text::parse_u64(start) {
            None => {
                return None;
            },
            Some(v) => v,
        };
        match &mut self.how_to {
            None => Some(false),
            Some(h) => Some(h.add_step_start(v)),
        }
    }

    /// Reads an end timestamp and records it on the last step; `None` when
    /// the text is not an unsigned decimal number.
    pub fn add_how_to_step_end(&mut self, end: &str) -> (r: Option<bool>)
        ensures
            final(self).components@ == old(self).components@,
            crate::text::spec_parse_u64(end@) is None <==> r is None,
            r is None ==> final(self).how_to == old(self).how_to,
            r == Some(false) ==> match old(self).how_to {
                Some(h) => h.sections@.len() == 0 || h.sections@.last().steps@.len() == 0,
                None => true,
            },
            r is Some ==> match old(self).how_to {
                None => r == Some(false) && final(self).how_to is None,
                Some(h) => final(self).how_to matches Some(h2) && (if r == Some(true) {
                    guide_step_upd(h, h2) && last_step(h2).directions == last_step(h).directions
                        && (last_step(h2).end matches Some(v) && Some(v as int)
                        == crate::text::spec_parse_u64(end@)) && last_step(h2).name == last_step(
                        h,
                    ).name && last_step(h2).image == last_step(h).image && last_step(h2).video
                        == last_step(h).video && last_step(h2).start == last_step(h).start
                } else {
                    guide_unchanged(h, h2)
                }),
            },
    {
        let v = match crate::text::parse_u64(end) {
            None => {
                return None;
            },
            Some(v) => v,
        };
        match &mut self.how_to {
            None => Some(false),
            Some(h) => Some(h.add_step_end(v)),
        }
    }

    /// Appends a direction to the guide model's last step and returns its
    /// 1-based position; `None` when none is open.
    pub fn add_how_to_direction(&mut self, text: &str) -> (r: Option<usize>)
        ensures
            final(self).components@ == old(self).components@,
            old(self).how_to is None ==> r is None && final(self).how_to is None,
            r is None ==> match old(self).how_to {
                Some(h) => h.sections@.len() == 0 || h.sections@.last().steps@.len() == 0,
                None => true,
            },
            old(self).how_to matches Some(h) ==> final(self).how_to matches Some(h2) && (match r {
                Some(p) => guide_step_upd(h, h2) && last_step(h2).directions@.len() == last_step(
                    h,
                ).directions@.len() + 1 && p == last_step(h2).directions@.len() && last_step(
                    h2,
                ).directions@.last().text@ == text@ && last_step(h2).directions@.drop_last()
                    == last_step(h).directions@ && last_step(h2).name == last_step(h).name
                    && last_step(h2).image == last_step(h).image && last_step(h2).video
                    == last_step(h).video && last_step(h2).start == last_step(h).start && last_step(
                    h2,
                ).end == last_step(h).end,
                None => guide_unchanged(h, h2),
            }),
    {
        match &mut self.how_to {
            None => None,
            Some(h) => h.add_direction(text),
        }
    }

    /// Inserts a guide-level property, creating the model lazily on the
    /// first insertion while a guide is open.
    pub fn insert_prop(&mut self, key: &str, value: &str)
        ensures
            final(self).components@ == old(self).components@,
            match old(self).how_to {
                None => final(self).how_to matches Some(h2) && pairs_view(h2.props@)
                    == spec_prop_insert(Seq::empty(), key@, value@) && h2.sections@.len() == 0,
                Some(h) => final(self).how_to matches Some(h2) && pairs_view(h2.props@)
                    == spec_prop_insert(pairs_view(h.props@), key@, value@) && h2.sections@
                    == h.sections@,
            },
    {
        match &mut self.how_to {
            Some(h) => {
                h.insert_prop(key, value);
            },
            None => {
                let mut h = HowToComponent::new();
                h.insert_prop(key, value);
                proof {
                    assert(pairs_view(Seq::<(String, String)>::empty())
                        =~= Seq::<(Seq<char>, Seq<char>)>::empty());
                }
                self.how_to = Some(h);
            },
        }
    }

    /// The guide model grown so far, opened for updating in place.
    pub fn how_to_mut(&mut self) -> (r: &mut Option<HowToComponent>)
        ensures
            *r == old(self).how_to,
            final(self).components@ == old(self).components@,
            final(self).how_to == *final(r),
    {
        &mut self.how_to
    }

    /// The guide model grown so far, if any.
    pub fn how_to(&self) -> (r: Option<&HowToComponent>)
        ensures
            match r {
                Some(h) => self.how_to matches Some(g) && g == *h,
                None => self.how_to is None,
            },
    {
        self.how_to.as_ref()
    }
}

/// A default step: empty name, no media, no timestamps, no directions.
pub open spec fn step_is_default(st: HowToStepComponent) -> bool {
    &&& st.name@ == Seq::<char>::empty()
    &&& st.image is None
    &&& st.video is None
    &&& st.start is None
    &&& st.end is None
    &&& st.directions@ == Seq::<HowToDirectionComponent>::empty()
}

/// A fresh default step was appended to the model's last section,
/// everything else kept.
pub open spec fn guide_step_upd_appended(h: HowToComponent, h2: HowToComponent) -> bool {
    &&& h2.props == h.props
    &&& h.sections@.len() > 0
    &&& h2.sections@.len() == h.sections@.len()
    &&& h2.sections@.drop_last() == h.sections@.drop_last()
    &&& h2.sections@.last().name == h.sections@.last().name
    &&& h2.sections@.last().steps@.len() == h.sections@.last().steps@.len() + 1
    &&& h2.sections@.last().steps@.drop_last() == h.sections@.last().steps@
    &&& step_is_default(h2.sections@.last().steps@.last())
}

} // verus!

verus! {

/// The attribute text of a one-line self-contained component tag
/// `<Name ... />`: everything between the identifier and the terminator.
pub open spec fn spec_jsx_component(t: Seq<char>, id: Seq<char>) -> Option<
    (Seq<char>, Seq<char>),
> {
    let pat = "<"@ + id;
    if t.len() >= pat.len() && t.take(pat.len() as int) == pat {
        let v = t.skip(pat.len() as int);
        match spec_find_sub(v, "/>"@) {
            Some(q) => Some((v.take(q), v.skip(q + "/>"@.len()))),
            None => None,
        }
    } else {
        None
    }
}

/// Parses a one-line self-contained component tag.
pub fn parse_jsx_component(line: &str, component_identifier: &str) -> (r: Option<
    (String, String),
>)
    ensures
        match spec_jsx_component(line@, component_identifier@) {
            Some((attrs, rest)) => r matches Some((a, rr)) && a@ == attrs && rr@ == rest,
            None => r is None,
        },
{
    let mut pat = String::new();
    pat.append("<");
    pat.append(component_identifier);
    let plen = pat.as_str().unicode_len();
    let llen = line.unicode_len();
    if !starts_with_at(line, 0, pat.as_str()) {
        proof {
            if line@.len() >= pat@.len() && line@.take(pat@.len() as int) == pat@ {
                assert(occurs_at(line@, pat@, 0)) by {
                    assert(line@.subrange(0, pat@.len() as int) =~= line@.take(pat@.len() as int));
                }
            }
        }
        return None;
    }
    proof {
        assert(line@.take(pat@.len() as int) =~= line@.subrange(0, pat@.len() as int));
        reveal_strlit("/>");
    }
    let v = line.substring_char(plen, llen);
    let vlen = llen - plen;
    match find_sub(v, "/>") {
        None => None,
        Some(q) => {
            proof {
                lemma_find_sub(v@, "/>"@);
            }
            Some((v.substring_char(0, q).to_owned(), v.substring_char(q + 2, vlen).to_owned()))
        },
    }
}

/// How far the first line of a component tag got, judged from the text
/// after the identifier: self-closed by `/>`, closed by `>`, else still
/// open.
pub open spec fn spec_jsx_first_line(t: Seq<char>, id: Seq<char>) -> Option<JSXTagType> {
    let pat = "<"@ + id;
    if t.len() >= pat.len() && t.take(pat.len() as int) == pat {
        let v = t.skip(pat.len() as int);
        if spec_find_sub(v, "/>"@) is Some {
            Some(JSXTagType::SelfClosed)
        } else if find_ix(v, char_is('>')) is Some {
            Some(JSXTagType::Closed)
        } else {
            Some(JSXTagType::Opened)
        }
    } else {
        None
    }
}

/// Classifies the first line of a component tag.
pub fn parse_jsx_component_first_line(line: &str, component_identifier: &str) -> (r: Option<
    (String, JSXTagType),
>)
    ensures
        match spec_jsx_first_line(line@, component_identifier@) {
            Some(ty) => r matches Some((m, t)) && m@ == line@ && t == ty,
            None => r is None,
        },
{
    let mut pat = String::new();
    pat.append("<");
    pat.append(component_identifier);
    let plen = pat.as_str().unicode_len();
    let llen = line.unicode_len();
    if !starts_with_at(line, 0, pat.as_str()) {
        proof {
            if line@.len() >= pat@.len() && line@.take(pat@.len() as int) == pat@ {
                assert(occurs_at(line@, pat@, 0)) by {
                    assert(line@.subrange(0, pat@.len() as int) =~= line@.take(pat@.len() as int));
                }
            }
        }
        return None;
    }
    proof {
        assert(line@.take(pat@.len() as int) =~= line@.subrange(0, pat@.len() as int));
        reveal_strlit("/>");
    }
    let v = line.substring_char(plen, llen);
    if find_sub(v, "/>").is_some() {
        Some((line.to_owned(), JSXTagType::SelfClosed))
    } else if crate::text::find_char(v, '>').is_some() {
        Some((line.to_owned(), JSXTagType::Closed))
    } else {
        Some((line.to_owned(), JSXTagType::Opened))
    }
}

/// A closing component tag prefix `</Name`: the matched prefix and the
/// rest.
pub open spec fn spec_jsx_last_line(t: Seq<char>, id: Seq<char>) -> Option<
    (Seq<char>, Seq<char>),
> {
    let pat = "</"@ + id;
    if t.len() >= pat.len() && t.take(pat.len() as int) == pat {
        Some((pat, t.skip(pat.len() as int)))
    } else {
        None
    }
}

/// Recognizes a closing component tag prefix.
pub fn parse_jsx_component_last_line(line: &str, component_identifier: &str) -> (r: Option<
    (String, String),
>)
    ensures
        match spec_jsx_last_line(line@, component_identifier@) {
            Some((matched, rest)) => r matches Some((m, rr)) && m@ == matched && rr@ == rest,
            None => r is None,
        },
{
    let mut pat = String::new();
    pat.append("</");
    pat.append(component_identifier);
    let plen = pat.as_str().unicode_len();
    let llen = line.unicode_len();
    if starts_with_at(line, 0, pat.as_str()) {
        proof {
            assert(line@.take(pat@.len() as int) =~= line@.subrange(0, pat@.len() as int));
        }
        Some((pat, line.substring_char(plen, llen).to_owned()))
    } else {
        proof {
            if line@.len() >= pat@.len() && line@.take(pat@.len() as int) == pat@ {
                assert(occurs_at(line@, pat@, 0)) by {
                    assert(line@.subrange(0, pat@.len() as int) =~= line@.take(pat@.len() as int));
                }
            }
        }
        None
    }
}

/// A component tag parsed as an HTML tag whose name must equal the
/// identifier exactly: its attribute text and how far it got.
pub open spec fn spec_form_jsx_first(t: Seq<char>, id: Seq<char>) -> Option<
    (Seq<char>, HTMLTagType),
> {
    let p: Option<((Seq<char>, Seq<char>), HTMLTagType)> = match spec_self_closing_tag(t) {
        Some((na, rest)) => Some((na, HTMLTagType::SelfClosing)),
        None => match spec_opening_tag(t) {
            Some((na, rest)) => Some((na, HTMLTagType::Opening)),
            None => match spec_opening_tag_start(t) {
                Some((na, rest)) => Some((na, HTMLTagType::OpeningStart)),
                None => None,
            },
        },
    };
    match p {
        Some(((name, attrs), ty)) => if name == id {
            Some((attrs, ty))
        } else {
            None
        },
        None => None,
    }
}

/// Parses the first line of a named component tag; the name must match
/// the identifier exactly.
pub fn form_jsx_component_first_line(line: &str, component_identifier: &str) -> (r: Option<
    (String, String, HTMLTagType, usize),
>)
    ensures
        match spec_form_jsx_first(line@, component_identifier@) {
            Some((attrs, ty)) => r matches Some((m, a, t, d)) && m@ == line@ && a@ == attrs && t
                == ty && d == 0,
            None => r is None,
        },
{
    let p: Option<(String, String, HTMLTagType, String)> = match parse_self_closing_html_tag(
        line,
    ) {
        Some(x) => Some(x),
        None => match parse_opening_html_tag(line) {
            Some(x) => Some(x),
            None => parse_opening_html_tag_start(line),
        },
    };
    match p {
        Some((name, attrs, ty, rest)) => {
            if eq_str(name.as_str(), component_identifier) {
                Some((line.to_owned(), attrs, ty, 0))
            } else {
                None
            }
        },
        None => None,
    }
}

/// Parses the continuation of an opening tag spread over several lines:
/// its attribute text and whether the tag closed on this line.
pub fn form_jsx_component_opening_line(line: &str) -> (r: (String, String, HTMLTagType, usize))
    ensures
        ({
            let (attrs, ty) = spec_jsx_opening_line(line@);
            r.0@ == line@ && r.1@ == attrs && r.2 == ty && r.3 == 0
        }),
{
    match parse_self_closing_html_tag_end(line) {
        Some((attrs, ty, rest)) => (line.to_owned(), attrs, ty, 0),
        None => {
            let (attrs, ty, rest) = parse_opening_html_tag_end(line);
            (line.to_owned(), attrs, ty, 0)
        },
    }
}

/// The attribute text and tag state of an opening-tag continuation line.
pub open spec fn spec_jsx_opening_line(t: Seq<char>) -> (Seq<char>, HTMLTagType) {
    match spec_self_closing_tag_end(t) {
        Some((attrs, rest)) => (attrs, HTMLTagType::SelfClosing),
        None => {
            let ((attrs, ty), rest) = spec_opening_tag_end(t);
            (attrs, ty)
        },
    }
}

/// A closing component tag `</Name ...>` whose name must equal the
/// identifier exactly.
pub open spec fn spec_form_jsx_last(t: Seq<char>, id: Seq<char>) -> bool {
    match spec_closing_tag(t) {
        Some(((name, attrs), rest)) => name == id,
        None => false,
    }
}

/// Parses the closing line of a named component tag.
pub fn form_jsx_component_last_line(line: &str, component_identifier: &str) -> (r: Option<
    (String, HTMLTagType, usize),
>)
    ensures
        if spec_form_jsx_last(line@, component_identifier@) {
            r matches Some((m, ty, d)) && m@ == line@ && ty == HTMLTagType::Closing && d == 0
        } else {
            r is None
        },
{
    match parse_closing_html_tag(line) {
        Some((name, attrs, ty, rest)) => {
            if eq_str(name.as_str(), component_identifier) {
                Some((line.to_owned(), HTMLTagType::Closing, 0))
            } else {
                None
            }
        },
        None => None,
    }
}

} // verus!

verus! {

/// The line classification of a code-fragment tag state.
pub open spec fn code_fragment_lt(ty: JSXTagType) -> LineType {
    match ty {
        JSXTagType::Closed => LineType::CodeFragmentOpen,
        JSXTagType::Opened => LineType::CodeFragmentOpening,
        JSXTagType::SelfClosed => LineType::CodeFragment,
    }
}

/// Recognizes the first line of a code-fragment component.
pub fn form_code_fragment_component_first_line(line: &str) -> (r: Option<
    (String, LineType, usize),
>)
    ensures
        match spec_jsx_first_line(line@, "CodeFragment"@) {
            Some(ty) => r matches Some((m, t, d)) && m@ == line@ && t == code_fragment_lt(ty) && d
                == 0,
            None => r is None,
        },
{
    match parse_jsx_component_first_line(line, "CodeFragment") {
        None => None,
        Some((m, ty)) => match ty {
            JSXTagType::Closed => Some((m, LineType::CodeFragmentOpen, 0)),
            JSXTagType::Opened => Some((m, LineType::CodeFragmentOpening, 0)),
            JSXTagType::SelfClosed => Some((m, LineType::CodeFragment, 0)),
        },
    }
}

/// The line classification of a poll tag state.
pub open spec fn poll_lt(ty: JSXTagType) -> LineType {
    match ty {
        JSXTagType::Closed => LineType::PollOpen,
        JSXTagType::Opened => LineType::PollOpening,
        JSXTagType::SelfClosed => LineType::Poll,
    }
}

/// Recognizes the first line of a poll component.
pub fn form_poll_component_first_line(line: &str) -> (r: Option<(String, LineType, usize)>)
    ensures
        match spec_jsx_first_line(line@, "Poll"@) {
            Some(ty) => r matches Some((m, t, d)) && m@ == line@ && t == poll_lt(ty) && d == 0,
            None => r is None,
        },
{
    match parse_jsx_component_first_line(line, "Poll") {
        None => None,
        Some((m, ty)) => match ty {
            JSXTagType::Closed => Some((m, LineType::PollOpen, 0)),
            JSXTagType::Opened => Some((m, LineType::PollOpening, 0)),
            JSXTagType::SelfClosed => Some((m, LineType::Poll, 0)),
        },
    }
}

/// The line classification of a video tag state.
pub open spec fn video_lt(ty: JSXTagType) -> LineType {
    match ty {
        JSXTagType::Closed => LineType::VideoOpen,
        JSXTagType::Opened => LineType::VideoOpening,
        JSXTagType::SelfClosed => LineType::Video,
    }
}

/// Recognizes the first line of a video component.
pub fn form_video_component_first_line(line: &str) -> (r: Option<(String, LineType, usize)>)
    ensures
        match spec_jsx_first_line(line@, "Video"@) {
            Some(ty) => r matches Some((m, t, d)) && m@ == line@ && t == video_lt(ty) && d == 0,
            None => r is None,
        },
{
    match parse_jsx_component_first_line(line, "Video") {
        None => None,
        Some((m, ty)) => match ty {
            JSXTagType::Closed => Some((m, LineType::VideoOpen, 0)),
            JSXTagType::Opened => Some((m, LineType::VideoOpening, 0)),
            JSXTagType::SelfClosed => Some((m, LineType::Video, 0)),
        },
    }
}

/// Recognizes a self-contained image component line.
pub fn form_image_component(line: &str) -> (r: Option<(String, LineType, usize)>)
    ensures
        match spec_jsx_component(line@, "Image"@) {
            Some((attrs, rest)) => r matches Some((m, t, d)) && m@ == "<Image"@ + attrs + "/>"@
                && t == LineType::Image && d == 0,
            None => r is None,
        },
{
    match parse_jsx_component(line, "Image") {
        None => None,
        Some((attrs, rest)) => {
            let mut m = String::new();
            m.append("<Image");
            m.append(attrs.as_str());
            m.append("/>");
            Some((m, LineType::Image, 0))
        },
    }
}

/// Recognizes a self-contained migration-notice component line.
pub fn form_gatsby_not_maintained_component(line: &str) -> (r: Option<(String, LineType, usize)>)
    ensures
        match spec_jsx_component(line@, "GatsbyNotMaintained"@) {
            Some((attrs, rest)) => r matches Some((m, t, d)) && m@ == "<GatsbyNotMaintained"@
                + attrs + "/>"@ && t == LineType::GatsbyNotMaintained && d == 0,
            None => r is None,
        },
{
    match parse_jsx_component(line, "GatsbyNotMaintained") {
        None => None,
        Some((attrs, rest)) => {
            let mut m = String::new();
            m.append("<GatsbyNotMaintained");
            m.append(attrs.as_str());
            m.append("/>");
            Some((m, LineType::GatsbyNotMaintained, 0))
        },
    }
}

/// Recognizes a self-contained tweet component line.
pub fn form_tweet_component(line: &str) -> (r: Option<(String, LineType, usize)>)
    ensures
        match spec_jsx_component(line@, "Tweet"@) {
            Some((attrs, rest)) => r matches Some((m, t, d)) && m@ == "<Tweet"@ + attrs + "/>"@
                && t == LineType::Tweet && d == 0,
            None => r is None,
        },
{
    match parse_jsx_component(line, "Tweet") {
        None => None,
        Some((attrs, rest)) => {
            let mut m = String::new();
            m.append("<Tweet");
            m.append(attrs.as_str());
            m.append("/>");
            Some((m, LineType::Tweet, 0))
        },
    }
}

/// Recognizes a self-contained questions component line.
pub fn form_questions_component(line: &str) -> (r: Option<(String, LineType, usize)>)
    ensures
        match spec_jsx_component(line@, "Questions"@) {
            Some((attrs, rest)) => r matches Some((m, t, d)) && m@ == "<Questions"@ + attrs
                + "/>"@ && t == LineType::Questions && d == 0,
            None => r is None,
        },
{
    match parse_jsx_component(line, "Questions") {
        None => None,
        Some((attrs, rest)) => {
            let mut m = String::new();
            m.append("<Questions");
            m.append(attrs.as_str());
            m.append("/>");
            Some((m, LineType::Questions, 0))
        },
    }
}

/// The guide line classifications of the three tag states, one triple per
/// nesting level.
pub open spec fn howto_lt(ty: HTMLTagType, open: LineType, opening: LineType, done: LineType)
    -> LineType {
    match ty {
        HTMLTagType::Opening => open,
        HTMLTagType::OpeningStart => opening,
        HTMLTagType::SelfClosing => done,
        HTMLTagType::Closing => done,
    }
}

/// Recognizes the first line of a guide tag.
pub fn form_how_to_component_first_line(line: &str) -> (r: Option<
    (String, String, LineType, usize),
>)
    ensures
        match spec_form_jsx_first(line@, "HowTo"@) {
            Some((attrs, ty)) => r matches Some((m, a, t, d)) && m@ == line@ && a@ == attrs && t
                == howto_lt(ty, LineType::HowToOpen, LineType::HowToOpening, LineType::HowTo) && d
                == 0,
            None => r is None,
        },
{
    match form_jsx_component_first_line(line, "HowTo") {
        None => None,
        Some((m, a, ty, d)) => match ty {
            HTMLTagType::Opening => Some((m, a, LineType::HowToOpen, d)),
            HTMLTagType::OpeningStart => Some((m, a, LineType::HowToOpening, d)),
            HTMLTagType::SelfClosing => Some((m, a, LineType::HowTo, d)),
            HTMLTagType::Closing => None,
        },
    }
}

/// Recognizes the first line of a guide section tag.
pub fn form_how_to_section_component_first_line(line: &str) -> (r: Option<
    (String, String, LineType, usize),
>)
    ensures
        match spec_form_jsx_first(line@, "HowToSection"@) {
            Some((attrs, ty)) => r matches Some((m, a, t, d)) && m@ == line@ && a@ == attrs && t
                == howto_lt(
                ty,
                LineType::HowToSectionOpen,
                LineType::HowToSectionOpening,
                LineType::HowToSection,
            ) && d == 0,
            None => r is None,
        },
{
    match form_jsx_component_first_line(line, "HowToSection") {
        None => None,
        Some((m, a, ty, d)) => match ty {
            HTMLTagType::Opening => Some((m, a, LineType::HowToSectionOpen, d)),
            HTMLTagType::OpeningStart => Some((m, a, LineType::HowToSectionOpening, d)),
            HTMLTagType::SelfClosing => Some((m, a, LineType::HowToSection, d)),
            HTMLTagType::Closing => None,
        },
    }
}

/// Recognizes the first line of a guide step tag.
pub fn form_how_to_step_component_first_line(line: &str) -> (r: Option<
    (String, String, LineType, usize),
>)
    ensures
        match spec_form_jsx_first(line@, "HowToStep"@) {
            Some((attrs, ty)) => r matches Some((m, a, t, d)) && m@ == line@ && a@ == attrs && t
                == howto_lt(
                ty,
                LineType::HowToStepOpen,
                LineType::HowToStepOpening,
                LineType::HowToStep,
            ) && d == 0,
            None => r is None,
        },
{
    match form_jsx_component_first_line(line, "HowToStep") {
        None => None,
        Some((m, a, ty, d)) => match ty {
            HTMLTagType::Opening => Some((m, a, LineType::HowToStepOpen, d)),
            HTMLTagType::OpeningStart => Some((m, a, LineType::HowToStepOpening, d)),
            HTMLTagType::SelfClosing => Some((m, a, LineType::HowToStep, d)),
            HTMLTagType::Closing => None,
        },
    }
}

/// Recognizes the first line of a guide direction tag.
pub fn form_how_to_direction_component_first_line(line: &str) -> (r: Option<
    (String, String, LineType, usize),
>)
    ensures
        match spec_form_jsx_first(line@, "HowToDirection"@) {
            Some((attrs, ty)) => r matches Some((m, a, t, d)) && m@ == line@ && a@ == attrs && t
                == howto_lt(
                ty,
                LineType::HowToDirectionOpen,
                LineType::HowToDirectionOpening,
                LineType::HowToDirection,
            ) && d == 0,
            None => r is None,
        },
{
    match form_jsx_component_first_line(line, "HowToDirection") {
        None => None,
        Some((m, a, ty, d)) => match ty {
            HTMLTagType::Opening => Some((m, a, LineType::HowToDirectionOpen, d)),
            HTMLTagType::OpeningStart => Some((m, a, LineType::HowToDirectionOpening, d)),
            HTMLTagType::SelfClosing => Some((m, a, LineType::HowToDirection, d)),
            HTMLTagType::Closing => None,
        },
    }
}

/// The classification of an opening-tag continuation line: closed on this
/// line, or still open.
pub open spec fn opening_line_lt(ty: HTMLTagType, open: LineType, opening: LineType) -> LineType {
    match ty {
        HTMLTagType::Opening => open,
        HTMLTagType::SelfClosing => open,
        HTMLTagType::OpeningStart => opening,
        HTMLTagType::Closing => opening,
    }
}

/// Handles the continuation of a guide opening tag.
pub fn form_how_to_component_opening_line(line: &str) -> (r: (String, String, LineType, usize))
    ensures
        ({
            let (attrs, ty) = spec_jsx_opening_line(line@);
            r.0@ == line@ && r.1@ == attrs && r.2 == opening_line_lt(
                ty,
                LineType::HowToOpen,
                LineType::HowToOpening,
            ) && r.3 == 0
        }),
{
    let (m, a, ty, d) = form_jsx_component_opening_line(line);
    match ty {
        HTMLTagType::Opening => (m, a, LineType::HowToOpen, d),
        HTMLTagType::SelfClosing => (m, a, LineType::HowToOpen, d),
        _ => (m, a, LineType::HowToOpening, d),
    }
}

/// Handles the continuation of a guide section opening tag.
pub fn form_how_to_section_component_opening_line(line: &str) -> (r: (
    String,
    String,
    LineType,
    usize,
))
    ensures
        ({
            let (attrs, ty) = spec_jsx_opening_line(line@);
            r.0@ == line@ && r.1@ == attrs && r.2 == opening_line_lt(
                ty,
                LineType::HowToSectionOpen,
                LineType::HowToSectionOpening,
            ) && r.3 == 0
        }),
{
    let (m, a, ty, d) = form_jsx_component_opening_line(line);
    match ty {
        HTMLTagType::Opening => (m, a, LineType::HowToSectionOpen, d),
        HTMLTagType::SelfClosing => (m, a, LineType::HowToSectionOpen, d),
        _ => (m, a, LineType::HowToSectionOpening, d),
    }
}

/// Handles the continuation of a guide step opening tag.
pub fn form_how_to_step_component_opening_line(line: &str) -> (r: (
    String,
    String,
    LineType,
    usize,
))
    ensures
        ({
            let (attrs, ty) = spec_jsx_opening_line(line@);
            r.0@ == line@ && r.1@ == attrs && r.2 == opening_line_lt(
                ty,
                LineType::HowToStepOpen,
                LineType::HowToStepOpening,
            ) && r.3 == 0
        }),
{
    let (m, a, ty, d) = form_jsx_component_opening_line(line);
    match ty {
        HTMLTagType::Opening => (m, a, LineType::HowToStepOpen, d),
        HTMLTagType::SelfClosing => (m, a, LineType::HowToStepOpen, d),
        _ => (m, a, LineType::HowToStepOpening, d),
    }
}

/// Handles the continuation of a guide direction opening tag.
pub fn form_how_to_direction_component_opening_line(line: &str) -> (r: (
    String,
    String,
    LineType,
    usize,
))
    ensures
        ({
            let (attrs, ty) = spec_jsx_opening_line(line@);
            r.0@ == line@ && r.1@ == attrs && r.2 == opening_line_lt(
                ty,
                LineType::HowToDirectionOpen,
                LineType::HowToDirectionOpening,
            ) && r.3 == 0
        }),
{
    let (m, a, ty, d) = form_jsx_component_opening_line(line);
    match ty {
        HTMLTagType::Opening => (m, a, LineType::HowToDirectionOpen, d),
        HTMLTagType::SelfClosing => (m, a, LineType::HowToDirectionOpen, d),
        _ => (m, a, LineType::HowToDirectionOpening, d),
    }
}

/// The classification of a poll opening-tag continuation line.
pub open spec fn spec_poll_opening_lt(t: Seq<char>) -> LineType {
    if spec_find_sub(t, "/>"@) is Some {
        LineType::Poll
    } else if find_ix(t, char_is('>')) is Some {
        LineType::PollOpen
    } else {
        LineType::PollOpening
    }
}

/// Handles the continuation of a poll opening tag.
pub fn form_poll_component_opening_line(line: &str) -> (r: (String, LineType, usize))
    ensures
        r.0@ == line@ && r.1 == spec_poll_opening_lt(line@) && r.2 == 0,
{
    proof {
        reveal_strlit("/>");
    }
    if find_sub(line, "/>").is_some() {
        (line.to_owned(), LineType::Poll, 0)
    } else if crate::text::find_char(line, '>').is_some() {
        (line.to_owned(), LineType::PollOpen, 0)
    } else {
        (line.to_owned(), LineType::PollOpening, 0)
    }
}

/// Handles the continuation of a video opening tag.
pub fn form_video_component_opening_line(line: &str) -> (r: (String, LineType, usize))
    ensures
        ({
            let (attrs, ty) = spec_jsx_opening_line(line@);
            r.0@ == line@ && r.1 == (match ty {
                HTMLTagType::Opening => LineType::VideoOpen,
                HTMLTagType::SelfClosing => LineType::Video,
                _ => LineType::VideoOpening,
            }) && r.2 == 0
        }),
{
    let (m, a, ty, d) = form_jsx_component_opening_line(line);
    match ty {
        HTMLTagType::Opening => (m, LineType::VideoOpen, d),
        HTMLTagType::SelfClosing => (m, LineType::Video, d),
        _ => (m, LineType::VideoOpening, d),
    }
}

/// Recognizes the closing line of a code-fragment component.
pub fn form_code_fragment_component_last_line(line: &str) -> (r: Option<
    (String, LineType, usize),
>)
    ensures
        match spec_jsx_last_line(line@, "CodeFragment"@) {
            Some((matched, rest)) => r matches Some((m, t, d)) && m@ == line@ && t
                == LineType::CodeFragment && d == 0,
            None => r is None,
        },
{
    match parse_jsx_component_last_line(line, "CodeFragment") {
        None => None,
        Some((matched, rest)) => {
            let mut m = matched;
            m.append(rest.as_str());
            proof {
                assert(m@ =~= line@);
            }
            Some((m, LineType::CodeFragment, 0))
        },
    }
}

/// Recognizes the closing line of a poll component.
pub fn form_poll_component_last_line(line: &str) -> (r: Option<(String, LineType, usize)>)
    ensures
        match spec_jsx_last_line(line@, "Poll"@) {
            Some((matched, rest)) => r matches Some((m, t, d)) && m@ == line@ && t
                == LineType::Poll && d == 0,
            None => r is None,
        },
{
    match parse_jsx_component_last_line(line, "Poll") {
        None => None,
        Some((matched, rest)) => {
            let mut m = matched;
            m.append(rest.as_str());
            proof {
                assert(m@ =~= line@);
            }
            Some((m, LineType::Poll, 0))
        },
    }
}

/// Recognizes the closing line of a video component.
pub fn form_video_component_last_line(line: &str) -> (r: Option<(String, LineType, usize)>)
    ensures
        match spec_jsx_last_line(line@, "Video"@) {
            Some((matched, rest)) => r matches Some((m, t, d)) && m@ == line@ && t
                == LineType::Video && d == 0,
            None => r is None,
        },
{
    match parse_jsx_component_last_line(line, "Video") {
        None => None,
        Some((matched, rest)) => {
            let mut m = matched;
            m.append(rest.as_str());
            proof {
                assert(m@ =~= line@);
            }
            Some((m, LineType::Video, 0))
        },
    }
}

/// Recognizes the closing line of a guide tag.
pub fn form_how_to_component_last_line(line: &str) -> (r: Option<(String, LineType, usize)>)
    ensures
        if spec_form_jsx_last(line@, "HowTo"@) {
            r matches Some((m, t, d)) && m@ == line@ && t == LineType::HowTo && d == 0
        } else {
            r is None
        },
{
    match form_jsx_component_last_line(line, "HowTo") {
        None => None,
        Some((m, ty, d)) => Some((m, LineType::HowTo, d)),
    }
}

/// Recognizes the closing line of a guide section tag.
pub fn form_how_to_section_component_last_line(line: &str) -> (r: Option<
    (String, LineType, usize),
>)
    ensures
        if spec_form_jsx_last(line@, "HowToSection"@) {
            r matches Some((m, t, d)) && m@ == line@ && t == LineType::HowToSection && d == 0
        } else {
            r is None
        },
{
    match form_jsx_component_last_line(line, "HowToSection") {
        None => None,
        Some((m, ty, d)) => Some((m, LineType::HowToSection, d)),
    }
}

/// Recognizes the closing line of a guide step tag.
pub fn form_how_to_step_component_last_line(line: &str) -> (r: Option<(String, LineType, usize)>)
    ensures
        if spec_form_jsx_last(line@, "HowToStep"@) {
            r matches Some((m, t, d)) && m@ == line@ && t == LineType::HowToStep && d == 0
        } else {
            r is None
        },
{
    match form_jsx_component_last_line(line, "HowToStep") {
        None => None,
        Some((m, ty, d)) => Some((m, LineType::HowToStep, d)),
    }
}

/// Recognizes the closing line of a guide direction tag.
pub fn form_how_to_direction_component_last_line(line: &str) -> (r: Option<
    (String, LineType, usize),
>)
    ensures
        if spec_form_jsx_last(line@, "HowToDirection"@) {
            r matches Some((m, t, d)) && m@ == line@ && t == LineType::HowToDirection && d == 0
        } else {
            r is None
        },
{
    match form_jsx_component_last_line(line, "HowToDirection") {
        None => None,
        Some((m, ty, d)) => Some((m, LineType::HowToDirection, d)),
    }
}

} // verus!

verus! {

/// The property pairs of an optional guide model.
pub open spec fn opt_props(o: Option<HowToComponent>) -> Option<Seq<(Seq<char>, Seq<char>)>> {
    match o {
        None => None,
        Some(h) => Some(pairs_view(h.props@)),
    }
}

/// The sections of an optional guide model.
pub open spec fn sections_of(o: Option<HowToComponent>) -> Seq<HowToSectionComponent> {
    match o {
        None => Seq::empty(),
        Some(h) => h.sections@,
    }
}

/// Inserting a run of properties in order, creating the property list on
/// the first insertion.
pub open spec fn opt_insert_all(
    p: Option<Seq<(Seq<char>, Seq<char>)>>,
    kvs: Seq<(Seq<char>, Seq<char>)>,
) -> Option<Seq<(Seq<char>, Seq<char>)>>
    decreases kvs.len(),
{
    if kvs.len() == 0 {
        p
    } else {
        let base = match p {
            None => Seq::<(Seq<char>, Seq<char>)>::empty(),
            Some(q) => q,
        };
        opt_insert_all(Some(spec_prop_insert(base, kvs[0].0, kvs[0].1)), kvs.drop_first())
    }
}

/// The value of the first attribute named `k`, the way a recognizer scans
/// an attribute list for one key.
pub open spec fn attrs_find_first(ps: Seq<(Seq<char>, Seq<char>)>, k: Seq<char>) -> Option<
    Seq<char>,
>
    decreases ps.len(),
{
    if ps.len() == 0 {
        None
    } else if ps[0].0 == k {
        Some(ps[0].1)
    } else {
        attrs_find_first(ps.drop_first(), k)
    }
}

/// The value of the first attribute named `key` among `pairs`.
pub fn attrs_get_first(pairs: &Vec<(String, String)>, key: &str) -> (r: Option<String>)
    ensures
        match attrs_find_first(pairs_view(pairs@), key@) {
            Some(v) => r matches Some(s) && s@ == v,
            None => r is None,
        },
{
    let ghost ps = pairs_view(pairs@);
    let n = pairs.len();
    let mut i: usize = 0;
    proof {
        assert(ps.skip(0) =~= ps);
    }
    while i < n
        invariant
            i <= n,
            n == pairs@.len(),
            ps == pairs_view(pairs@),
            attrs_find_first(ps, key@) == attrs_find_first(ps.skip(i as int), key@),
        decreases n - i,
    {
        let p = &pairs[i];
        proof {
            assert(ps.skip(i as int)[0] == ps[i as int]);
            assert(ps.skip(i as int).drop_first() =~= ps.skip(i + 1));
        }
        if eq_str(p.0.as_str(), key) {
            return Some(p.1.clone());
        }
        i = i + 1;
    }
    proof {
        assert(ps.skip(n as int) =~= Seq::<(Seq<char>, Seq<char>)>::empty());
    }
    None
}

/// Inserts every parsed attribute as a guide property, in order.
fn insert_props_all(register: &mut JSXComponentRegister, pairs: &Vec<(String, String)>)
    ensures
        final(register).components@ == old(register).components@,
        opt_props(final(register).how_to) == opt_insert_all(
            opt_props(old(register).how_to),
            pairs_view(pairs@),
        ),
        sections_of(final(register).how_to) == sections_of(old(register).how_to),
        pairs@.len() == 0 ==> final(register).how_to == old(register).how_to,
        pairs@.len() > 0 ==> final(register).how_to is Some,
{
    let n = pairs.len();
    let mut i: usize = 0;
    proof {
        assert(pairs_view(pairs@).skip(0) =~= pairs_view(pairs@));
    }
    while i < n
        invariant
            i <= n,
            n == pairs@.len(),
            register.components@ == old(register).components@,
            opt_insert_all(opt_props(register.how_to), pairs_view(pairs@).skip(i as int))
                == opt_insert_all(opt_props(old(register).how_to), pairs_view(pairs@)),
            sections_of(register.how_to) == sections_of(old(register).how_to),
            i > 0 ==> register.how_to is Some,
            i == 0 ==> register.how_to == old(register).how_to,
        decreases n - i,
    {
        let ghost ps = pairs_view(pairs@);
        let p = &pairs[i];
        proof {
            assert(ps.skip(i as int)[0] == ps[i as int]);
            assert(ps.skip(i as int).drop_first() =~= ps.skip(i + 1));
        }
        register.insert_prop(p.0.as_str(), p.1.as_str());
        i = i + 1;
    }
    proof {
        assert(pairs_view(pairs@).skip(n as int) =~= Seq::<(Seq<char>, Seq<char>)>::empty());
    }
}

/// The field view of a step: name, media, and timestamps as plain values.
pub open spec fn step_fields_of(st: HowToStepComponent) -> (
    Seq<char>,
    Option<Seq<char>>,
    Option<Seq<char>>,
    Option<int>,
    Option<int>,
) {
    (
        st.name@,
        match st.image {
            Some(v) => Some(v@),
            None => None,
        },
        match st.video {
            Some(v) => Some(v@),
            None => None,
        },
        match st.start {
            Some(v) => Some(v as int),
            None => None,
        },
        match st.end {
            Some(v) => Some(v as int),
            None => None,
        },
    )
}

/// The field view of a default step.
pub open spec fn default_step_fields() -> (
    Seq<char>,
    Option<Seq<char>>,
    Option<Seq<char>>,
    Option<int>,
    Option<int>,
) {
    (Seq::<char>::empty(), None, None, None, None)
}

/// The step fields after a run of attributes is applied in order: each
/// recognized key overwrites its field, a timestamp through its decimal
/// reading, and unrecognized keys change nothing.
pub open spec fn spec_step_fields_after(
    fields: (Seq<char>, Option<Seq<char>>, Option<Seq<char>>, Option<int>, Option<int>),
    kvs: Seq<(Seq<char>, Seq<char>)>,
) -> (Seq<char>, Option<Seq<char>>, Option<Seq<char>>, Option<int>, Option<int>)
    decreases kvs.len(),
{
    if kvs.len() == 0 {
        fields
    } else {
        let (k, v) = kvs[0];
        let rest = kvs.drop_first();
        let (name, image, video, start, end) = fields;
        if k == "name"@ {
            spec_step_fields_after((v, image, video, start, end), rest)
        } else if k == "image"@ {
            spec_step_fields_after((name, Some(v), video, start, end), rest)
        } else if k == "video"@ {
            spec_step_fields_after((name, image, Some(v), start, end), rest)
        } else if k == "start"@ {
            spec_step_fields_after(
                (name, image, video, crate::text::spec_parse_u64(v), end),
                rest,
            )
        } else if k == "end"@ {
            spec_step_fields_after(
                (name, image, video, start, crate::text::spec_parse_u64(v)),
                rest,
            )
        } else {
            spec_step_fields_after(fields, rest)
        }
    }
}

/// Whether a run of step attributes can be applied: a recognized
/// attribute needs an open step, and a timestamp must read as a decimal
/// number.
pub open spec fn spec_step_attrs_ok(has_step: bool, kvs: Seq<(Seq<char>, Seq<char>)>) -> bool
    decreases kvs.len(),
{
    if kvs.len() == 0 {
        true
    } else {
        let (k, v) = kvs[0];
        let rest = kvs.drop_first();
        if k == "name"@ || k == "image"@ || k == "video"@ {
            has_step && spec_step_attrs_ok(has_step, rest)
        } else if k == "start"@ || k == "end"@ {
            has_step && crate::text::spec_parse_u64(v) is Some && spec_step_attrs_ok(
                has_step,
                rest,
            )
        } else {
            spec_step_attrs_ok(has_step, rest)
        }
    }
}

/// The register holds an open step: a model with a section holding a step.
pub open spec fn reg_has_step(o: Option<HowToComponent>) -> bool {
    match o {
        Some(h) => h.sections@.len() > 0 && h.sections@.last().steps@.len() > 0,
        None => false,
    }
}

/// The rewritten markup part of one recognized step attribute.
pub open spec fn step_attr_part(k: Seq<char>, v: Seq<char>) -> Option<Seq<char>> {
    if k == "name"@ {
        Some("name=\""@ + v + "\""@)
    } else if k == "image"@ {
        Some("image=\""@ + v + "\""@)
    } else if k == "video"@ {
        Some("video=\""@ + v + "\""@)
    } else if k == "start"@ {
        Some("start={"@ + v + "}"@)
    } else if k == "end"@ {
        Some("end={"@ + v + "}"@)
    } else {
        None
    }
}

/// The rewritten markup parts of a step attribute list, in order.
pub open spec fn step_parts(kvs: Seq<(Seq<char>, Seq<char>)>) -> Seq<Seq<char>>
    decreases kvs.len(),
{
    if kvs.len() == 0 {
        Seq::empty()
    } else {
        (match step_attr_part(kvs[0].0, kvs[0].1) {
            Some(p) => seq![p],
            None => Seq::empty(),
        }) + step_parts(kvs.drop_first())
    }
}

/// Markup parts joined by single spaces.
pub open spec fn join_sp(parts: Seq<Seq<char>>) -> Seq<char>
    decreases parts.len(),
{
    if parts.len() == 0 {
        Seq::empty()
    } else if parts.len() == 1 {
        parts[0]
    } else {
        parts[0] + " "@ + join_sp(parts.drop_first())
    }
}

} // verus!

verus! {

/// The result carries exactly this markup and classification at depth 0.
pub open spec fn is_line_result(
    r: Result<Option<(String, LineType, usize)>, MdError>,
    m: Seq<char>,
    t: LineType,
) -> bool {
    r matches Ok(Some((rm, rt, rd))) && rm@ == m && rt == t && rd == 0
}

/// Hands a line to the open component on top of the register's stack: the
/// construct's continuation handler classifies the line, rewrites guide
/// tags with their derived positions, and grows the guide model. The stack
/// itself is never changed here; the driver owns every push and pop.
#[verifier::rlimit(100)]
#[verifier::spinoff_prover]
pub fn parse_open_jsx_block(line: &str, register: &mut JSXComponentRegister) -> (r: Result<
    Option<(String, LineType, usize)>,
    MdError,
>)
    ensures
        final(register).components@ == old(register).components@,
        r matches Err(e) ==> e == MdError::MalformedComponentGrammar || e
            == MdError::ComponentNameMismatch,
        old(register).components@.len() == 0 ==> ({
            match spec_form_jsx_first(line@, "HowTo"@) {
                Some((attrs, ty)) => is_line_result(
                    r,
                    line@,
                    howto_lt(ty, LineType::HowToOpen, LineType::HowToOpening, LineType::HowTo),
                ) && opt_props(final(register).how_to) == opt_insert_all(
                    opt_props(old(register).how_to),
                    spec_attrs(attrs),
                ) && sections_of(final(register).how_to) == sections_of(old(register).how_to),
                None => r matches Ok(x) && x is None && final(register).how_to == old(register).how_to,
            }
        }),
        old(register).components@.len() > 0 ==> ({
            let top = old(register).components@.last();
            match top {
                JSXComponentType::HowToOpening => ({
                    let (attrs, ty) = spec_jsx_opening_line(line@);
                    if line@.len() == 0 {
                        r matches Ok(x) && x is None && final(register).how_to == old(register).how_to
                    } else {
                        is_line_result(
                            r,
                            line@,
                            opening_line_lt(ty, LineType::HowToOpen, LineType::HowToOpening),
                        ) && opt_props(final(register).how_to) == opt_insert_all(
                            opt_props(old(register).how_to),
                            spec_attrs(attrs),
                        ) && sections_of(final(register).how_to) == sections_of(
                            old(register).how_to,
                        )
                    }
                }),
                JSXComponentType::PollOpening => final(register).how_to == old(register).how_to
                    && (if line@.len() == 0 {
                    r matches Ok(x) && x is None
                } else {
                    is_line_result(r, line@, spec_poll_opening_lt(line@))
                }),
                JSXComponentType::VideoOpening => final(register).how_to == old(register).how_to
                    && ({
                    let (attrs, ty) = spec_jsx_opening_line(line@);
                    if line@.len() == 0 {
                        r matches Ok(x) && x is None
                    } else {
                        is_line_result(
                            r,
                            line@,
                            match ty {
                                HTMLTagType::Opening => LineType::VideoOpen,
                                HTMLTagType::SelfClosing => LineType::Video,
                                _ => LineType::VideoOpening,
                            },
                        )
                    }
                }),
                JSXComponentType::FencedCodeBlock => final(register).how_to == old(register).how_to && (if crate::parser::fenced::spec_fence_close(line@) {
                    is_line_result(r, "  `} />"@, LineType::FencedCodeBlock)
                } else {
                    is_line_result(
                        r,
                        crate::parser::inline::spec_escape_code(line@),
                        LineType::FencedCodeBlockOpen,
                    )
                }),
                JSXComponentType::HowTo => ({
                    match spec_form_jsx_first(line@, "HowToSection"@) {
                        Some((attrs, ty)) => ({
                            let pairs = spec_attrs(attrs);
                            opt_props(final(register).how_to) == opt_props(
                                old(register).how_to,
                            ) && (match attrs_find_first(pairs, "name"@) {
                                Some(v) => ({
                                    &&& (old(register).how_to is None ==> r is Err)
                                    &&& (old(register).how_to is Some ==> sections_of(
                                        final(register).how_to,
                                    ).len() == sections_of(old(register).how_to).len() + 1
                                        && sections_of(final(register).how_to).last().name@ == v
                                        && sections_of(final(register).how_to).drop_last()
                                        == sections_of(old(register).how_to))
                                    &&& (old(register).how_to is Some && ty
                                        == HTMLTagType::Opening ==> is_line_result(
                                        r,
                                        "  <HowToSection name=\""@ + v + "\" position={"@
                                            + spec_dec_str(
                                            sections_of(final(register).how_to).len() as int,
                                        ) + "}>"@,
                                        LineType::HowToSectionOpen,
                                    ))
                                    &&& (old(register).how_to is Some && ty
                                        == HTMLTagType::OpeningStart ==> is_line_result(
                                        r,
                                        "  <HowToSection name=\""@ + v + "\" position={"@
                                            + spec_dec_str(
                                            sections_of(final(register).how_to).len() as int,
                                        ) + "}"@,
                                        LineType::HowToSectionOpening,
                                    ))
                                    &&& (old(register).how_to is Some && ty
                                        == HTMLTagType::SelfClosing ==> is_line_result(
                                        r,
                                        line@,
                                        LineType::HowToSection,
                                    ))
                                }),
                                None => is_line_result(
                                    r,
                                    line@,
                                    howto_lt(
                                        ty,
                                        LineType::HowToSectionOpen,
                                        LineType::HowToSectionOpening,
                                        LineType::HowToSection,
                                    ),
                                ) && final(register).how_to == old(register).how_to,
                            })
                        }),
                        None => final(register).how_to == old(register).how_to && ({
                            match crate::parser::fenced::spec_fenced_first_markup(line@) {
                                Some(mk) => is_line_result(r, mk, LineType::FencedCodeBlockOpen),
                                None => match spec_jsx_first_line(line@, "Video"@) {
                                    Some(vt) => is_line_result(r, line@, video_lt(vt)),
                                    None => if spec_form_jsx_last(line@, "HowTo"@) {
                                        is_line_result(r, line@, LineType::HowTo)
                                    } else {
                                        is_line_result(r, line@, LineType::HowToOpen)
                                    },
                                },
                            }
                        }),
                    }
                }),
                JSXComponentType::HowToSectionOpening => ({
                    let (attrs, ty) = spec_jsx_opening_line(line@);
                    let lt = opening_line_lt(
                        ty,
                        LineType::HowToSectionOpen,
                        LineType::HowToSectionOpening,
                    );
                    let pairs = spec_attrs(attrs);
                    match attrs_find_first(pairs, "name"@) {
                        Some(v) => ({
                            if old(register).how_to is None {
                                r is Err
                            } else {
                                &&& sections_of(final(register).how_to).len() == sections_of(
                                    old(register).how_to,
                                ).len() + 1
                                &&& sections_of(final(register).how_to).last().name@ == v
                                &&& sections_of(final(register).how_to).drop_last() == sections_of(
                                    old(register).how_to,
                                )
                                &&& (lt == LineType::HowToSectionOpen ==> is_line_result(
                                    r,
                                    "    name=\""@ + v + "\" position={"@ + spec_dec_str(
                                        sections_of(final(register).how_to).len() as int,
                                    ) + "}>"@,
                                    LineType::HowToSectionOpen,
                                ))
                                &&& (lt == LineType::HowToSectionOpening ==> is_line_result(
                                    r,
                                    "    name=\""@ + v + "\" position={"@ + spec_dec_str(
                                        sections_of(final(register).how_to).len() as int,
                                    ) + "}"@,
                                    LineType::HowToSectionOpening,
                                ))
                            }
                        }),
                        None => is_line_result(r, line@, lt) && final(register).how_to == old(register).how_to,
                    }
                }),
                JSXComponentType::HowToSection => ({
                    match spec_form_jsx_first(line@, "HowToStep"@) {
                        Some((attrs, ty)) => ({
                            &&& opt_props(final(register).how_to) == opt_props(
                                old(register).how_to,
                            )
                            &&& ((old(register).how_to is None || sections_of(
                                old(register).how_to,
                            ).len() == 0) ==> r is Err)
                            &&& (!(old(register).how_to is None || sections_of(
                                old(register).how_to,
                            ).len() == 0) ==> (r is Err <==> !spec_step_attrs_ok(
                                true,
                                spec_attrs(attrs),
                            )))
                            &&& (r matches Ok(x) ==> step_fields_of(
                                sections_of(final(register).how_to).last().steps@.last(),
                            ) == spec_step_fields_after(default_step_fields(), spec_attrs(attrs)))
                            &&& (r matches Ok(x) ==> ({
                                let pairs = spec_attrs(attrs);
                                let sp = sections_of(old(register).how_to).len();
                                let base = "{slug} position={"@ + spec_dec_str(
                                    sections_of(final(register).how_to).last().steps@.len() as int,
                                ) + "} section={"@ + spec_dec_str(sp as int) + "}"@;
                                &&& sections_of(final(register).how_to).len() == sp
                                &&& sections_of(final(register).how_to).last().steps@.len()
                                    == sections_of(old(register).how_to).last().steps@.len() + 1
                                &&& (ty == HTMLTagType::Opening ==> is_line_result(
                                    r,
                                    "    <HowToStep "@ + join_sp(
                                        seq![base] + step_parts(pairs),
                                    ) + ">"@,
                                    LineType::HowToStepOpen,
                                ))
                                &&& (ty == HTMLTagType::OpeningStart ==> is_line_result(
                                    r,
                                    "    <HowToStep "@ + join_sp(seq![base] + step_parts(pairs)),
                                    LineType::HowToStepOpening,
                                ))
                                &&& (ty == HTMLTagType::SelfClosing ==> is_line_result(
                                    r,
                                    line@,
                                    LineType::HowToStep,
                                ))
                            }))
                        }),
                        None => final(register).how_to == old(register).how_to && ({
                            match crate::parser::fenced::spec_fenced_first_markup(line@) {
                                Some(mk) => is_line_result(r, mk, LineType::FencedCodeBlockOpen),
                                None => match spec_jsx_first_line(line@, "Video"@) {
                                    Some(vt) => is_line_result(r, line@, video_lt(vt)),
                                    None => if spec_form_jsx_last(line@, "HowToSection"@) {
                                        is_line_result(r, line@, LineType::HowToSection)
                                    } else {
                                        is_line_result(r, line@, LineType::HowToSectionOpen)
                                    },
                                },
                            }
                        }),
                    }
                }),
                JSXComponentType::HowToStepOpening => ({
                    let (attrs, ty) = spec_jsx_opening_line(line@);
                    let lt = opening_line_lt(
                        ty,
                        LineType::HowToStepOpen,
                        LineType::HowToStepOpening,
                    );
                    let pairs = spec_attrs(attrs);
                    &&& opt_props(final(register).how_to) == opt_props(old(register).how_to)
                    &&& (r is Ok <==> spec_step_attrs_ok(
                        reg_has_step(old(register).how_to),
                        pairs,
                    ))
                    &&& (r is Ok && !reg_has_step(old(register).how_to) ==> final(register).how_to == old(register).how_to)
                    &&& (r is Ok && reg_has_step(old(register).how_to) ==> (final(register).how_to matches Some(h2) && step_fields_of(last_step(h2))
                        == spec_step_fields_after(
                        step_fields_of(last_step(old(register).how_to->0)),
                        pairs,
                    ) && last_step(h2).directions == last_step(
                        old(register).how_to->0,
                    ).directions))
                    &&& r matches Ok(x) ==> ({
                        &&& sections_of(final(register).how_to).len() == sections_of(
                            old(register).how_to,
                        ).len()
                        &&& (lt == LineType::HowToStepOpen ==> is_line_result(
                            r,
                            "    "@ + join_sp(step_parts(pairs)) + ">"@,
                            LineType::HowToStepOpen,
                        ))
                        &&& (lt == LineType::HowToStepOpening ==> is_line_result(
                            r,
                            "    "@ + join_sp(step_parts(pairs)),
                            LineType::HowToStepOpening,
                        ))
                    })
                }),
                JSXComponentType::HowToStep => ({
                    match spec_form_jsx_first(line@, "HowToDirection"@) {
                        Some((attrs, ty)) => ({
                            let pairs = spec_attrs(attrs);
                            match attrs_find_first(pairs, "text"@) {
                                Some(v) => ({
                                    &&& ((old(register).how_to is None || sections_of(
                                        old(register).how_to,
                                    ).len() == 0 || sections_of(
                                        old(register).how_to,
                                    ).last().steps@.len() == 0) ==> r is Err)
                                    &&& (r matches Ok(x) ==> ({
                                        let p = last_step(
                                            final(register).how_to->0,
                                        ).directions@.len();
                                        &&& final(register).how_to is Some
                                        &&& (ty == HTMLTagType::Opening ==> is_line_result(
                                            r,
                                            "      <HowToDirection text=\""@ + v + "\" position={"@
                                                + spec_dec_str(p as int) + "}>"@,
                                            LineType::HowToDirectionOpen,
                                        ))
                                        &&& (ty == HTMLTagType::OpeningStart ==> is_line_result(
                                            r,
                                            "      <HowToDirection text=\""@ + v + "\" position={"@
                                                + spec_dec_str(p as int) + "}"@,
                                            LineType::HowToDirectionOpening,
                                        ))
                                        &&& (ty == HTMLTagType::SelfClosing ==> is_line_result(
                                            r,
                                            line@,
                                            LineType::HowToDirection,
                                        ))
                                    }))
                                }),
                                None => is_line_result(
                                    r,
                                    line@,
                                    howto_lt(
                                        ty,
                                        LineType::HowToDirectionOpen,
                                        LineType::HowToDirectionOpening,
                                        LineType::HowToDirection,
                                    ),
                                ) && final(register).how_to == old(register).how_to,
                            }
                        }),
                        None => final(register).how_to == old(register).how_to && ({
                            match crate::parser::fenced::spec_fenced_first_markup(line@) {
                                Some(mk) => is_line_result(r, mk, LineType::FencedCodeBlockOpen),
                                None => match spec_jsx_first_line(line@, "Video"@) {
                                    Some(vt) => is_line_result(r, line@, video_lt(vt)),
                                    None => if spec_form_jsx_last(line@, "HowToStep"@) {
                                        is_line_result(r, line@, LineType::HowToStep)
                                    } else {
                                        is_line_result(r, line@, LineType::HowToStepOpen)
                                    },
                                },
                            }
                        }),
                    }
                }),
                JSXComponentType::HowToDirectionOpening => ({
                    let (attrs, ty) = spec_jsx_opening_line(line@);
                    let lt = opening_line_lt(
                        ty,
                        LineType::HowToDirectionOpen,
                        LineType::HowToDirectionOpening,
                    );
                    let pairs = spec_attrs(attrs);
                    match attrs_find_first(pairs, "text"@) {
                        Some(v) => r matches Ok(x) ==> ({
                            let p = last_step(final(register).how_to->0).directions@.len();
                            &&& final(register).how_to is Some
                            &&& (lt == LineType::HowToDirectionOpen ==> is_line_result(
                                r,
                                "text=\""@ + v + "\" position=\""@ + spec_dec_str(p as int)
                                    + "\">"@,
                                LineType::HowToDirectionOpen,
                            ))
                            &&& (lt == LineType::HowToDirectionOpening ==> is_line_result(
                                r,
                                "text=\""@ + v + "\" position=\""@ + spec_dec_str(p as int)
                                    + "\""@,
                                LineType::HowToDirectionOpening,
                            ))
                        }),
                        None => is_line_result(r, line@, lt) && final(register).how_to == old(register).how_to,
                    }
                }),
                JSXComponentType::HowToDirection => final(register).how_to == old(register).how_to && ({
                    if spec_form_jsx_last(line@, "HowToDirection"@) {
                        is_line_result(r, line@, LineType::HowToDirection)
                    } else {
                        match crate::parser::fenced::spec_fenced_first_markup(line@) {
                            Some(mk) => is_line_result(r, mk, LineType::FencedCodeBlockOpen),
                            None => match spec_jsx_first_line(line@, "Video"@) {
                                Some(vt) => is_line_result(r, line@, video_lt(vt)),
                                None => is_line_result(r, line@, LineType::HowToDirectionOpen),
                            },
                        }
                    }
                }),
                _ => final(register).how_to == old(register).how_to && ({
                    match crate::parser::spec_own_close(top, line@) {
                        Some(lt) => is_line_result(r, line@, lt),
                        None => if crate::parser::spec_any_component_close(line@) {
                            r matches Err(e) && e == MdError::ComponentNameMismatch
                        } else {
                            is_line_result(r, line@, LineType::JSXComponent)
                        },
                    }
                }),
            }
        }),
{
    let top: Option<JSXComponentType> = match register.peek() {
        Some(t) => Some(*t),
        None => None,
    };
    match top {
        Some(JSXComponentType::HowToOpening) => {
            let (markup, attrs, lt, lvl) = form_how_to_component_opening_line(line);
            if markup.as_str().unicode_len() != 0 {
                let pairs = crate::parser::inline::parse_html_tag_attributes(attrs.as_str());
                insert_props_all(register, &pairs);
                Ok(Some((markup, lt, lvl)))
            } else {
                Ok(None)
            }
        },
        Some(JSXComponentType::PollOpening) => {
            let (markup, lt, lvl) = form_poll_component_opening_line(line);
            if markup.as_str().unicode_len() != 0 {
                Ok(Some((markup, lt, lvl)))
            } else {
                Ok(None)
            }
        },
        Some(JSXComponentType::VideoOpening) => {
            let (markup, lt, lvl) = form_video_component_opening_line(line);
            if markup.as_str().unicode_len() != 0 {
                Ok(Some((markup, lt, lvl)))
            } else {
                Ok(None)
            }
        },
        Some(JSXComponentType::FencedCodeBlock) => {
            match crate::parser::fenced::form_fenced_code_block_last_line(line) {
                Some((m, lt, lvl)) => Ok(Some((m, lt, lvl))),
                None => Ok(
                    Some(
                        (crate::parser::inline::escape_code(line), LineType::FencedCodeBlockOpen, 0),
                    ),
                ),
            }
        },
        Some(JSXComponentType::HowTo) => {
            match form_how_to_section_component_first_line(line) {
                Some((markup, attrs, lt, lvl)) => {
                    let pairs = crate::parser::inline::parse_html_tag_attributes(attrs.as_str());
                    match attrs_get_first(&pairs, "name") {
                        Some(v) => {
                            let position = match register.add_how_to_section(v.as_str()) {
                                Some(p) => p,
                                None => {
                                    return Err(MdError::MalformedComponentGrammar);
                                },
                            };
                            let ps = usize_to_string(position);
                            if lt == LineType::HowToSectionOpen {
                                let mut m = String::new();
                                m.append("  <HowToSection name=\"");
                                m.append(v.as_str());
                                m.append("\" position={");
                                m.append(ps.as_str());
                                m.append("}>");
                                Ok(Some((m, lt, lvl)))
                            } else if lt == LineType::HowToSectionOpening {
                                let mut m = String::new();
                                m.append("  <HowToSection name=\"");
                                m.append(v.as_str());
                                m.append("\" position={");
                                m.append(ps.as_str());
                                m.append("}");
                                Ok(Some((m, lt, lvl)))
                            } else {
                                Ok(Some((markup, lt, lvl)))
                            }
                        },
                        None => Ok(Some((markup, lt, lvl))),
                    }
                },
                None => {
                    match crate::parser::fenced::form_fenced_code_block_first_line(line) {
                        Some((m, lt, lvl)) => Ok(Some((m, lt, lvl))),
                        None => match form_video_component_first_line(line) {
                            Some((m, lt, lvl)) => Ok(Some((m, lt, lvl))),
                            None => match form_how_to_component_last_line(line) {
                                Some((m, lt, lvl)) => Ok(Some((m, lt, lvl))),
                                None => Ok(Some((line.to_owned(), LineType::HowToOpen, 0))),
                            },
                        },
                    }
                },
            }
        },
        Some(JSXComponentType::HowToSectionOpening) => {
            let (markup, attrs, lt, lvl) = form_how_to_section_component_opening_line(line);
            let pairs = crate::parser::inline::parse_html_tag_attributes(attrs.as_str());
            match attrs_get_first(&pairs, "name") {
                Some(v) => {
                    let position = match register.add_how_to_section(v.as_str()) {
                        Some(p) => p,
                        None => {
                            return Err(MdError::MalformedComponentGrammar);
                        },
                    };
                    let ps = usize_to_string(position);
                    if lt == LineType::HowToSectionOpen {
                        let mut m = String::new();
                        m.append("    name=\"");
                        m.append(v.as_str());
                        m.append("\" position={");
                        m.append(ps.as_str());
                        m.append("}>");
                        Ok(Some((m, lt, lvl)))
                    } else {
                        let mut m = String::new();
                        m.append("    name=\"");
                        m.append(v.as_str());
                        m.append("\" position={");
                        m.append(ps.as_str());
                        m.append("}");
                        Ok(Some((m, lt, lvl)))
                    }
                },
                None => Ok(Some((markup, lt, lvl))),
            }
        },
        Some(JSXComponentType::HowToSection) => {
            match form_how_to_step_component_first_line(line) {
                Some((markup, attrs, lt, lvl)) => {
                    let pairs = crate::parser::inline::parse_html_tag_attributes(attrs.as_str());
                    let (section_position, position) = match register.add_how_to_step() {
                        Some(x) => x,
                        None => {
                            return Err(MdError::MalformedComponentGrammar);
                        },
                    };
                    let mut joined = String::new();
                    joined.append("{slug} position={");
                    let ps = usize_to_string(position);
                    joined.append(ps.as_str());
                    joined.append("} section={");
                    let sps = usize_to_string(section_position);
                    joined.append(sps.as_str());
                    joined.append("}");
                    match apply_step_attrs(register, &pairs, &mut joined) {
                        Ok(()) => {},
                        Err(e) => {
                            return Err(e);
                        },
                    }
                    if lt == LineType::HowToStepOpen {
                        let mut m = String::new();
                        m.append("    <HowToStep ");
                        m.append(joined.as_str());
                        m.append(">");
                        Ok(Some((m, lt, lvl)))
                    } else if lt == LineType::HowToStepOpening {
                        let mut m = String::new();
                        m.append("    <HowToStep ");
                        m.append(joined.as_str());
                        Ok(Some((m, lt, lvl)))
                    } else {
                        Ok(Some((markup, lt, lvl)))
                    }
                },
                None => {
                    match crate::parser::fenced::form_fenced_code_block_first_line(line) {
                        Some((m, lt, lvl)) => Ok(Some((m, lt, lvl))),
                        None => match form_video_component_first_line(line) {
                            Some((m, lt, lvl)) => Ok(Some((m, lt, lvl))),
                            None => match form_how_to_section_component_last_line(line) {
                                Some((m, lt, lvl)) => Ok(Some((m, lt, lvl))),
                                None => Ok(Some((line.to_owned(), LineType::HowToSectionOpen, 0))),
                            },
                        },
                    }
                },
            }
        },
        Some(JSXComponentType::HowToStepOpening) => {
            let (markup, attrs, lt, lvl) = form_how_to_step_component_opening_line(line);
            let pairs = crate::parser::inline::parse_html_tag_attributes(attrs.as_str());
            let mut joined = String::new();
            match apply_step_attrs_first(register, &pairs, &mut joined) {
                Ok(()) => {},
                Err(e) => {
                    return Err(e);
                },
            }
            if lt == LineType::HowToStepOpen {
                let mut m = String::new();
                m.append("    ");
                m.append(joined.as_str());
                m.append(">");
                Ok(Some((m, lt, lvl)))
            } else {
                let mut m = String::new();
                m.append("    ");
                m.append(joined.as_str());
                Ok(Some((m, lt, lvl)))
            }
        },
        Some(JSXComponentType::HowToStep) => {
            match form_how_to_direction_component_first_line(line) {
                Some((markup, attrs, lt, lvl)) => {
                    let pairs = crate::parser::inline::parse_html_tag_attributes(attrs.as_str());
                    match attrs_get_first(&pairs, "text") {
                        Some(v) => {
                            let position = match register.add_how_to_direction(v.as_str()) {
                                Some(p) => p,
                                None => {
                                    return Err(MdError::MalformedComponentGrammar);
                                },
                            };
                            let ps = usize_to_string(position);
                            if lt == LineType::HowToDirectionOpen {
                                let mut m = String::new();
                                m.append("      <HowToDirection text=\"");
                                m.append(v.as_str());
                                m.append("\" position={");
                                m.append(ps.as_str());
                                m.append("}>");
                                Ok(Some((m, lt, lvl)))
                            } else if lt == LineType::HowToDirectionOpening {
                                let mut m = String::new();
                                m.append("      <HowToDirection text=\"");
                                m.append(v.as_str());
                                m.append("\" position={");
                                m.append(ps.as_str());
                                m.append("}");
                                Ok(Some((m, lt, lvl)))
                            } else {
                                Ok(Some((markup, lt, lvl)))
                            }
                        },
                        None => Ok(Some((markup, lt, lvl))),
                    }
                },
                None => {
                    match crate::parser::fenced::form_fenced_code_block_first_line(line) {
                        Some((m, lt, lvl)) => Ok(Some((m, lt, lvl))),
                        None => match form_video_component_first_line(line) {
                            Some((m, lt, lvl)) => Ok(Some((m, lt, lvl))),
                            None => match form_how_to_step_component_last_line(line) {
                                Some((m, lt, lvl)) => Ok(Some((m, lt, lvl))),
                                None => Ok(Some((line.to_owned(), LineType::HowToStepOpen, 0))),
                            },
                        },
                    }
                },
            }
        },
        Some(JSXComponentType::HowToDirectionOpening) => {
            let (markup, attrs, lt, lvl) = form_how_to_direction_component_opening_line(line);
            let pairs = crate::parser::inline::parse_html_tag_attributes(attrs.as_str());
            match attrs_get_first(&pairs, "text") {
                Some(v) => {
                    let position = match register.add_how_to_direction(v.as_str()) {
                        Some(p) => p,
                        None => {
                            return Err(MdError::MalformedComponentGrammar);
                        },
                    };
                    let ps = usize_to_string(position);
                    if lt == LineType::HowToDirectionOpen {
                        let mut m = String::new();
                        m.append("text=\"");
                        m.append(v.as_str());
                        m.append("\" position=\"");
                        m.append(ps.as_str());
                        m.append("\">");
                        Ok(Some((m, lt, lvl)))
                    } else {
                        let mut m = String::new();
                        m.append("text=\"");
                        m.append(v.as_str());
                        m.append("\" position=\"");
                        m.append(ps.as_str());
                        m.append("\"");
                        Ok(Some((m, lt, lvl)))
                    }
                },
                None => Ok(Some((markup, lt, lvl))),
            }
        },
        Some(JSXComponentType::HowToDirection) => {
            match form_how_to_direction_component_last_line(line) {
                Some((m, lt, lvl)) => Ok(Some((m, lt, lvl))),
                None => {
                    match crate::parser::fenced::form_fenced_code_block_first_line(line) {
                        Some((m, lt, lvl)) => Ok(Some((m, lt, lvl))),
                        None => match form_video_component_first_line(line) {
                            Some((m, lt, lvl)) => Ok(Some((m, lt, lvl))),
                            None => Ok(Some((line.to_owned(), LineType::HowToDirectionOpen, 0))),
                        },
                    }
                },
            }
        },
        Some(c) => {
            let own: Option<(String, LineType, usize)> = if c == JSXComponentType::CodeFragment
                || c == JSXComponentType::CodeFragmentOpening {
                form_code_fragment_component_last_line(line)
            } else if c == JSXComponentType::Poll {
                form_poll_component_last_line(line)
            } else if c == JSXComponentType::Video {
                form_video_component_last_line(line)
            } else {
                None
            };
            match own {
                Some((m, lt, lvl)) => Ok(Some((m, lt, lvl))),
                None => {
                    let mismatched = form_code_fragment_component_last_line(line).is_some()
                        || form_poll_component_last_line(line).is_some()
                        || form_video_component_last_line(line).is_some()
                        || form_how_to_step_component_last_line(line).is_some()
                        || form_how_to_section_component_last_line(line).is_some()
                        || form_how_to_component_last_line(line).is_some();
                    if mismatched {
                        Err(MdError::ComponentNameMismatch)
                    } else {
                        Ok(Some((line.to_owned(), LineType::JSXComponent, 0)))
                    }
                },
            }
        },
        None => {
            match form_how_to_component_first_line(line) {
                Some((markup, attrs, lt, lvl)) => {
                    if markup.as_str().unicode_len() != 0 {
                        let pairs = crate::parser::inline::parse_html_tag_attributes(
                            attrs.as_str(),
                        );
                        insert_props_all(register, &pairs);
                        Ok(Some((markup, lt, lvl)))
                    } else {
                        Ok(None)
                    }
                },
                None => Ok(None),
            }
        },
    }
}

/// Applies recognized step attributes to the model's last step and appends
/// each rewritten part after the already-started markup text.
fn apply_step_attrs(
    register: &mut JSXComponentRegister,
    pairs: &Vec<(String, String)>,
    joined: &mut String,
) -> (r: Result<(), MdError>)
    requires
        old(joined)@.len() > 0,
    ensures
        final(register).components@ == old(register).components@,
        r matches Err(e) ==> e == MdError::MalformedComponentGrammar,
        opt_props(final(register).how_to) == opt_props(old(register).how_to),
        r is Ok <==> spec_step_attrs_ok(reg_has_step(old(register).how_to), pairs_view(pairs@)),
        r is Ok ==> final(joined)@ == join_sp(
            seq![old(joined)@] + step_parts(pairs_view(pairs@)),
        ) && step_counts_kept(old(register).how_to, final(register).how_to),
        r is Ok && !reg_has_step(old(register).how_to) ==> final(register).how_to == old(register).how_to,
        r is Ok && reg_has_step(old(register).how_to) ==> (final(register).how_to matches Some(
            h2,
        ) && step_fields_of(last_step(h2)) == spec_step_fields_after(
            step_fields_of(last_step(old(register).how_to->0)),
            pairs_view(pairs@),
        ) && last_step(h2).directions == last_step(old(register).how_to->0).directions),
{
    let ghost d: Seq<Seq<char>> = seq![joined@];
    proof {
        assert(d.len() == 1 && d[0] == joined@);
        assert(join_sp(d) == joined@);
    }
    apply_step_attrs_go(register, pairs, joined, true, Ghost(d))
}

/// Applies recognized step attributes, joining parts from an empty start:
/// the first recognized part carries no leading space.
fn apply_step_attrs_first(
    register: &mut JSXComponentRegister,
    pairs: &Vec<(String, String)>,
    joined: &mut String,
) -> (r: Result<(), MdError>)
    requires
        old(joined)@.len() == 0,
    ensures
        final(register).components@ == old(register).components@,
        r matches Err(e) ==> e == MdError::MalformedComponentGrammar,
        opt_props(final(register).how_to) == opt_props(old(register).how_to),
        r is Ok <==> spec_step_attrs_ok(reg_has_step(old(register).how_to), pairs_view(pairs@)),
        r is Ok ==> final(joined)@ == join_sp(step_parts(pairs_view(pairs@)))
            && step_counts_kept(old(register).how_to, final(register).how_to),
        r is Ok && !reg_has_step(old(register).how_to) ==> final(register).how_to == old(register).how_to,
        r is Ok && reg_has_step(old(register).how_to) ==> (final(register).how_to matches Some(
            h2,
        ) && step_fields_of(last_step(h2)) == spec_step_fields_after(
            step_fields_of(last_step(old(register).how_to->0)),
            pairs_view(pairs@),
        ) && last_step(h2).directions == last_step(old(register).how_to->0).directions),
{
    let ghost d: Seq<Seq<char>> = Seq::empty();
    proof {
        assert(joined@ =~= Seq::<char>::empty());
        assert(join_sp(d) == joined@);
    }
    apply_step_attrs_go(register, pairs, joined, false, Ghost(d))
}

/// The worker shared by the two join styles: `done` names the parts
/// already joined into `joined`.
fn apply_step_attrs_go(
    register: &mut JSXComponentRegister,
    pairs: &Vec<(String, String)>,
    joined: &mut String,
    has_parts: bool,
    Ghost(done): Ghost<Seq<Seq<char>>>,
) -> (r: Result<(), MdError>)
    requires
        old(joined)@ == join_sp(done),
        has_parts == (done.len() > 0),
    ensures
        final(register).components@ == old(register).components@,
        opt_props(final(register).how_to) == opt_props(old(register).how_to),
        r matches Err(e) ==> e == MdError::MalformedComponentGrammar,
        r is Ok <==> spec_step_attrs_ok(reg_has_step(old(register).how_to), pairs_view(pairs@)),
        r is Ok ==> final(joined)@ == join_sp(done + step_parts(pairs_view(pairs@)))
            && step_counts_kept(old(register).how_to, final(register).how_to),
        r is Ok && !reg_has_step(old(register).how_to) ==> final(register).how_to == old(register).how_to,
        r is Ok && reg_has_step(old(register).how_to) ==> (final(register).how_to matches Some(
            h2,
        ) && step_fields_of(last_step(h2)) == spec_step_fields_after(
            step_fields_of(last_step(old(register).how_to->0)),
            pairs_view(pairs@),
        ) && last_step(h2).directions == last_step(old(register).how_to->0).directions),
{
    let n = pairs.len();
    let mut i: usize = 0;
    let ghost mut cur: Seq<Seq<char>> = done;
    let mut have_parts = has_parts;
    let ghost has0 = reg_has_step(old(register).how_to);
    let ghost ps0 = pairs_view(pairs@);
    proof {
        assert(pairs_view(pairs@).skip(0) =~= pairs_view(pairs@));
    }
    while i < n
        invariant
            i <= n,
            n == pairs@.len(),
            ps0 == pairs_view(pairs@),
            has0 == reg_has_step(old(register).how_to),
            joined@ == join_sp(cur),
            have_parts == (cur.len() > 0),
            register.components@ == old(register).components@,
            opt_props(register.how_to) == opt_props(old(register).how_to),
            step_counts_kept(old(register).how_to, register.how_to),
            reg_has_step(register.how_to) == has0,
            !has0 ==> register.how_to == old(register).how_to,
            has0 ==> (register.how_to matches Some(hc) && spec_step_fields_after(
                step_fields_of(last_step(hc)),
                ps0.skip(i as int),
            ) == spec_step_fields_after(
                step_fields_of(last_step(old(register).how_to->0)),
                ps0,
            ) && last_step(hc).directions == last_step(old(register).how_to->0).directions),
            spec_step_attrs_ok(has0, ps0.skip(i as int)) == spec_step_attrs_ok(has0, ps0),
            join_sp(cur + step_parts(pairs_view(pairs@).skip(i as int))) == join_sp(
                done + step_parts(pairs_view(pairs@)),
            ),
        decreases n - i,
    {
        let ghost ps = pairs_view(pairs@);
        let ghost pre_how = register.how_to;
        let p = &pairs[i];
        proof {
            assert(ps.skip(i as int)[0] == ps[i as int]);
            assert(ps.skip(i as int).drop_first() =~= ps.skip(i + 1));
        }
        let key = p.0.as_str();
        let value = p.1.as_str();
        let part: Option<String> = if eq_str(key, "name") {
            if !register.add_how_to_step_name(value) {
                proof {
                    assert(!spec_step_attrs_ok(has0, ps.skip(i as int)));
                }
                return Err(MdError::MalformedComponentGrammar);
            }
            proof {
                if has0 {
                    assert(spec_step_fields_after(
                        step_fields_of(last_step(pre_how->0)),
                        ps.skip(i as int),
                    ) == spec_step_fields_after(
                        step_fields_of(last_step(register.how_to->0)),
                        ps.skip(i + 1),
                    ));
                }
            }
            let mut s = String::new();
            s.append("name=\"");
            s.append(value);
            s.append("\"");
            Some(s)
        } else if eq_str(key, "image") {
            if !register.add_how_to_step_image(value) {
                proof {
                    assert(!spec_step_attrs_ok(has0, ps.skip(i as int)));
                }
                return Err(MdError::MalformedComponentGrammar);
            }
            proof {
                if has0 {
                    assert(spec_step_fields_after(
                        step_fields_of(last_step(pre_how->0)),
                        ps.skip(i as int),
                    ) == spec_step_fields_after(
                        step_fields_of(last_step(register.how_to->0)),
                        ps.skip(i + 1),
                    ));
                }
            }
            let mut s = String::new();
            s.append("image=\"");
            s.append(value);
            s.append("\"");
            Some(s)
        } else if eq_str(key, "video") {
            if !register.add_how_to_step_video(value) {
                proof {
                    assert(!spec_step_attrs_ok(has0, ps.skip(i as int)));
                }
                return Err(MdError::MalformedComponentGrammar);
            }
            proof {
                if has0 {
                    assert(spec_step_fields_after(
                        step_fields_of(last_step(pre_how->0)),
                        ps.skip(i as int),
                    ) == spec_step_fields_after(
                        step_fields_of(last_step(register.how_to->0)),
                        ps.skip(i + 1),
                    ));
                }
            }
            let mut s = String::new();
            s.append("video=\"");
            s.append(value);
            s.append("\"");
            Some(s)
        } else if eq_str(key, "start") {
            match register.add_how_to_step_start(value) {
                Some(true) => {},
                _ => {
                    proof {
                        assert(!spec_step_attrs_ok(has0, ps.skip(i as int)));
                    }
                    return Err(MdError::MalformedComponentGrammar);
                },
            }
            proof {
                if has0 {
                    assert(spec_step_fields_after(
                        step_fields_of(last_step(pre_how->0)),
                        ps.skip(i as int),
                    ) == spec_step_fields_after(
                        step_fields_of(last_step(register.how_to->0)),
                        ps.skip(i + 1),
                    ));
                }
            }
            let mut s = String::new();
            s.append("start={");
            s.append(value);
            s.append("}");
            Some(s)
        } else if eq_str(key, "end") {
            match register.add_how_to_step_end(value) {
                Some(true) => {},
                _ => {
                    proof {
                        assert(!spec_step_attrs_ok(has0, ps.skip(i as int)));
                    }
                    return Err(MdError::MalformedComponentGrammar);
                },
            }
            proof {
                if has0 {
                    assert(spec_step_fields_after(
                        step_fields_of(last_step(pre_how->0)),
                        ps.skip(i as int),
                    ) == spec_step_fields_after(
                        step_fields_of(last_step(register.how_to->0)),
                        ps.skip(i + 1),
                    ));
                }
            }
            let mut s = String::new();
            s.append("end={");
            s.append(value);
            s.append("}");
            Some(s)
        } else {
            proof {
                if has0 {
                    assert(spec_step_fields_after(
                        step_fields_of(last_step(pre_how->0)),
                        ps.skip(i as int),
                    ) == spec_step_fields_after(
                        step_fields_of(last_step(register.how_to->0)),
                        ps.skip(i + 1),
                    ));
                }
            }
            None
        };
        match part {
            Some(s) => {
                if have_parts {
                    joined.append(" ");
                }
                joined.append(s.as_str());
                have_parts = true;
                proof {
                    lemma_join_sp_push(cur, s@);
                    assert(step_parts(ps.skip(i as int)) =~= seq![s@] + step_parts(
                        ps.skip(i + 1),
                    ));
                    assert((cur + step_parts(ps.skip(i as int))) =~= (cur.push(s@) + step_parts(
                        ps.skip(i + 1),
                    )));
                    cur = cur.push(s@);
                }
            },
            None => {
                proof {
                    assert(step_parts(ps.skip(i as int)) =~= step_parts(ps.skip(i + 1)));
                }
            },
        }
        i = i + 1;
    }
    proof {
        assert(pairs_view(pairs@).skip(n as int) =~= Seq::<(Seq<char>, Seq<char>)>::empty());
        assert(cur + step_parts(pairs_view(pairs@).skip(n as int)) =~= cur);
    }
    Ok(())
}

/// The section count, the last section's step count and the earlier
/// sections are kept, as is the last step's direction list when present.
pub open spec fn step_counts_kept(o: Option<HowToComponent>, n: Option<HowToComponent>) -> bool {
    &&& sections_of(n).len() == sections_of(o).len()
    &&& (sections_of(o).len() > 0 ==> sections_of(n).last().steps@.len() == sections_of(
        o,
    ).last().steps@.len() && sections_of(n).drop_last() == sections_of(o).drop_last() && (
    sections_of(o).last().steps@.len() > 0 ==> sections_of(n).last().steps@.last().directions@
        == sections_of(o).last().steps@.last().directions@))
}

proof fn lemma_join_sp_push(parts: Seq<Seq<char>>, p: Seq<char>)
    ensures
        join_sp(parts.push(p)) == if parts.len() == 0 {
            p
        } else {
            join_sp(parts) + " "@ + p
        },
    decreases parts.len(),
{
    if parts.len() == 0 {
        assert(parts.push(p)[0] == p);
        assert(parts.push(p).len() == 1);
    } else {
        lemma_join_sp_push(parts.drop_first(), p);
        assert(parts.push(p).drop_first() =~= parts.drop_first().push(p));
        assert(parts.push(p)[0] == parts[0]);
        if parts.len() == 1 {
            assert(join_sp(parts) == parts[0]);
        }
    }
}

} // verus!
