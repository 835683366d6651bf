//! The steps of a configuration: output names, how missing sources are
//! filled in, how the configuration is checked, and how a step's transforms
//! split into animation sections.
use vstd::prelude::*;

use crate::apply::effective;
use crate::model::{Config, Derived, Transform, TransformV, copy_transform, ostr, transforms_view};
use crate::text::{contains_chars, distinct, distinct_chars, char_seqs, decimal, ends_with, ends_with_chars, from_chars, join, join_chars, push_all, push_decimal, push_str, slice_of, to_chars};

verus! {

/// A step of the configuration seen mathematically.
pub struct DerivedV {
    pub output: Seq<char>,
    pub from: Option<Seq<char>>,
    pub transforms: Seq<TransformV>,
    pub bounding_box_tag: Option<Seq<char>>,
    pub delay: Option<u32>,
}

impl View for Derived {
    type V = DerivedV;

    open spec fn view(&self) -> DerivedV {
        DerivedV {
            output: self.output@,
            from: ostr(self.from),
            transforms: transforms_view(self.transforms@),
            bounding_box_tag: ostr(self.bounding_box_tag),
            delay: self.delay,
        }
    }
}

pub open spec fn steps_view(ds: Seq<Derived>) -> Seq<DerivedV> {
    ds.map_values(|d: Derived| d@)
}

// ---------------------------------------------------------------------------
// Output names.

/// An output name without its `.drawio` extension; other dots are kept.
pub open spec fn drawio_stem(s: Seq<char>) -> Seq<char> {
    if ends_with(s, ".drawio"@) {
        s.take(s.len() - ".drawio"@.len())
    } else {
        s
    }
}

/// Strip the `.drawio` extension from an output name, keeping all other
/// dots: "step6.scenario.drawio" gives "step6.scenario", "step1" stays.
pub fn strip_drawio_ext(output: &str) -> (r: String)
    ensures
        r@ == drawio_stem(output@),
{
    let s = to_chars(output);
    let ext = to_chars(".drawio");
    if ends_with_chars(&s, &ext) {
        let stem = slice_of(&s, 0, s.len() - ext.len());
        assert(stem@ =~= s@.take(s@.len() - ext@.len()));
        from_chars(&stem)
    } else {
        from_chars(&s)
    }
}

// ---------------------------------------------------------------------------
// Title slides and sources.

/// A step whose only transform is a TitleSlide.
pub open spec fn is_title_step(ts: Seq<TransformV>) -> bool {
    ts.len() == 1 && ts[0] is TitleSlide
}

/// Whether a step makes a title slide (its only transform is a TitleSlide).
pub fn is_title_slide(derived: &Derived) -> (r: bool)
    ensures
        r == is_title_step(derived@.transforms),
{
    if derived.transforms.len() != 1 {
        return false;
    }
    match &derived.transforms[0] {
        Transform::TitleSlide { .. } => true,
        _ => false,
    }
}

/// The nearest step before `i` that is not a title slide.
pub open spec fn nearest_content_step(ds: Seq<DerivedV>, i: int) -> Option<int>
    decreases i,
{
    if i <= 0 {
        None
    } else if !is_title_step(ds[i - 1].transforms) {
        Some(i - 1)
    } else {
        nearest_content_step(ds, i - 1)
    }
}

/// The source of step `i` once missing ones are filled in: its own, else the
/// output of the nearest earlier step that is not a title slide, else the
/// source of the first step.
pub open spec fn resolved_from(ds: Seq<DerivedV>, i: int) -> Option<Seq<char>> {
    if i == 0 || ds[i].from is Some {
        ds[i].from
    } else {
        match nearest_content_step(ds, i) {
            Some(j) => Some(ds[j].output),
            None => ds[0].from,
        }
    }
}

/// A step with its source filled in.
pub open spec fn with_resolved_from(ds: Seq<DerivedV>, i: int) -> DerivedV {
    DerivedV { from: resolved_from(ds, i), ..ds[i] }
}

/// Whether two configurations agree on everything but their steps.
pub open spec fn same_settings(a: Config, b: Config) -> bool {
    &&& a.delay_between_slides == b.delay_between_slides
    &&& a.heading_margin_bottom == b.heading_margin_bottom
    &&& a.list_item_spacing == b.list_item_spacing
    &&& a.list_item_indent == b.list_item_indent
    &&& a.transition == b.transition
    &&& a.transition_duration_ms == b.transition_duration_ms
    &&& a.confluence == b.confluence
}

fn nearest_content_step_exec(ds: &Vec<Derived>, i: usize) -> (r: Option<usize>)
    requires
        i <= ds@.len(),
    ensures
        match nearest_content_step(steps_view(ds@), i as int) {
            Some(j) => r == Some(j as usize),
            None => r is None,
        },
{
    let ghost dv = steps_view(ds@);
    let mut k: usize = i;
    while k > 0
        invariant
            k <= i <= ds@.len(),
            dv == steps_view(ds@),
            nearest_content_step(dv, i as int) == nearest_content_step(dv, k as int),
        decreases k,
    {
        assert(dv[k - 1] == ds@[k - 1]@);
        if !is_title_slide(&ds[k - 1]) {
            return Some(k - 1);
        }
        k -= 1;
    }
    None
}

/// Fill in missing `from` fields: each step after the first without one
/// takes the output of the nearest earlier step that is not a title slide,
/// or, when all earlier steps are title slides, the source of the first step.
pub fn resolve_from_fields(config: &mut Config)
    ensures
        final(config).derived@.len() == old(config).derived@.len(),
        forall|i: int|
            0 <= i < old(config).derived@.len() ==> (#[trigger] final(config).derived@[i])@ == with_resolved_from(
                steps_view(old(config).derived@),
                i,
            ),
        same_settings(*final(config), *old(config)),
{
    let ghost dv = steps_view(config.derived@);
    let n = config.derived.len();
    assert(n > 0 ==> with_resolved_from(dv, 0) == dv[0] && config.derived@[0]@ == dv[0]);
    let mut i: usize = 1;
    while i < n
        invariant
            1 <= i,
            n == config.derived@.len(),
            dv.len() == n,
            dv == steps_view(old(config).derived@),
            same_settings(*config, *old(config)),
            forall|k: int| 0 <= k < n ==> (#[trigger] config.derived@[k])@.output == dv[k].output,
            forall|k: int| 0 <= k < n ==> (#[trigger] config.derived@[k])@.transforms == dv[k].transforms,
            forall|k: int| 0 <= k < i && k < n ==> (#[trigger] config.derived@[k])@ == with_resolved_from(dv, k),
            forall|k: int| i <= k < n ==> (#[trigger] config.derived@[k])@ == dv[k],
        decreases n - i,
    {
        assert(config.derived@[i as int]@ == dv[i as int]);
        if config.derived[i].from.is_none() {
            let ghost cur = steps_view(config.derived@);
            assert forall|k: int| 0 <= k < n implies (#[trigger] cur[k]).transforms == dv[k].transforms by {
                assert(cur[k] == config.derived@[k]@);
            }
            let nearest = nearest_content_step_exec(&config.derived, i);
            proof {
                lemma_nearest_bounds(cur, i as int);
                assert forall|k: int| 0 <= k <= i implies nearest_content_step(cur, k) == nearest_content_step(dv, k) by {
                    lemma_nearest_same(cur, dv, k);
                }
            }
            let resolved = match nearest {
                Some(j) => Some(config.derived[j].output.clone()),
                None => match &config.derived[0].from {
                    Some(f) => Some(f.clone()),
                    None => None,
                },
            };
            assert(config.derived@[0]@ == with_resolved_from(dv, 0));
            let mut d = Derived { output: String::new(), from: None, transforms: Vec::new(), bounding_box_tag: None, delay: None };
            config.derived.set_and_swap(i, &mut d);
            let ghost taken = d@;
            assert(taken == dv[i as int]);
            d.from = resolved;
            assert(ostr(resolved) == resolved_from(dv, i as int));
            assert(d@ == DerivedV { from: resolved_from(dv, i as int), ..taken });
            config.derived.set_and_swap(i, &mut d);
            assert(config.derived@[i as int]@ == with_resolved_from(dv, i as int));
        } else {
            assert(config.derived@[i as int]@ == with_resolved_from(dv, i as int));
        }
        i += 1;
    }
}

proof fn lemma_nearest_same(a: Seq<DerivedV>, b: Seq<DerivedV>, i: int)
    requires
        a.len() == b.len(),
        i <= a.len(),
        forall|k: int| 0 <= k < a.len() ==> (#[trigger] a[k]).transforms == b[k].transforms,
    ensures
        nearest_content_step(a, i) == nearest_content_step(b, i),
    decreases i,
{
    if i > 0 {
        assert(a[i - 1].transforms == b[i - 1].transforms);
        lemma_nearest_same(a, b, i - 1);
    }
}

/// After sources are filled in, every step has one as soon as the first step
/// has one, and a step that had one keeps it.
pub proof fn lemma_resolved_sources(ds: Seq<DerivedV>, i: int)
    requires
        0 <= i < ds.len(),
    ensures
        ds[0].from is Some ==> resolved_from(ds, i) is Some,
        ds[i].from is Some ==> resolved_from(ds, i) == ds[i].from,
        i > 0 && ds[i].from is None && resolved_from(ds, i) != ds[0].from ==> exists|j: int|
            0 <= j < i && !is_title_step(ds[j].transforms) && resolved_from(ds, i) == Some(ds[j].output),
{
    if i > 0 && ds[i].from is None {
        lemma_nearest_bounds(ds, i);
    }
}

proof fn lemma_nearest_bounds(ds: Seq<DerivedV>, i: int)
    requires
        i <= ds.len(),
    ensures
        nearest_content_step(ds, i) matches Some(j) ==> 0 <= j < i && !is_title_step(ds[j].transforms),
    decreases i,
{
    if i > 0 && is_title_step(ds[i - 1].transforms) {
        lemma_nearest_bounds(ds, i - 1);
    }
}

// ---------------------------------------------------------------------------
// Animation sections.

/// The sections finished so far and the one being filled, after reading `ts`.
pub open spec fn sections_state(ts: Seq<TransformV>) -> (Seq<Seq<TransformV>>, Seq<TransformV>)
    decreases ts.len(),
{
    if ts.len() == 0 {
        (Seq::empty(), Seq::empty())
    } else {
        let (done, cur) = sections_state(ts.drop_last());
        if ts.last() is Animation {
            if cur.len() > 0 {
                (done.push(cur), Seq::empty())
            } else {
                (done, cur)
            }
        } else {
            (done, cur.push(ts.last()))
        }
    }
}

/// The transforms split at Animation markers, empty sections dropped.
pub open spec fn sections(ts: Seq<TransformV>) -> Seq<Seq<TransformV>> {
    let (done, cur) = sections_state(ts);
    if cur.len() > 0 {
        done.push(cur)
    } else {
        done
    }
}

/// The sections one after another.
pub open spec fn flatten(ss: Seq<Seq<TransformV>>) -> Seq<TransformV>
    decreases ss.len(),
{
    if ss.len() == 0 {
        Seq::empty()
    } else {
        flatten(ss.drop_last()) + ss.last()
    }
}

/// Whether a section is a run of transforms that are not markers.
pub open spec fn is_section(s: Seq<TransformV>) -> bool {
    s.len() > 0 && forall|j: int| 0 <= j < s.len() ==> !((#[trigger] s[j]) is Animation)
}

proof fn lemma_sections_state(ts: Seq<TransformV>)
    ensures
        ({
            let (done, cur) = sections_state(ts);
            &&& flatten(done) + cur == effective(ts)
            &&& forall|k: int| 0 <= k < done.len() ==> is_section(#[trigger] done[k])
            &&& forall|j: int| 0 <= j < cur.len() ==> !((#[trigger] cur[j]) is Animation)
        }),
    decreases ts.len(),
{
    if ts.len() > 0 {
        let p = ts.drop_last();
        lemma_sections_state(p);
        let (done, cur) = sections_state(p);
        if ts.last() is Animation {
            if cur.len() > 0 {
                assert(done.push(cur).drop_last() =~= done);
                assert(flatten(done.push(cur)) + Seq::<TransformV>::empty() =~= flatten(done) + cur);
            }
        } else {
            assert(flatten(done) + cur.push(ts.last()) =~= (flatten(done) + cur).push(ts.last()));
        }
    }
}

/// Splitting at Animation markers loses and reorders nothing: the sections,
/// one after another, are the transforms without the markers; no section is
/// empty or holds a marker.
pub proof fn lemma_sections(ts: Seq<TransformV>)
    ensures
        flatten(sections(ts)) == effective(ts),
        forall|k: int| 0 <= k < sections(ts).len() ==> is_section(#[trigger] sections(ts)[k]),
{
    lemma_sections_state(ts);
    let (done, cur) = sections_state(ts);
    if cur.len() > 0 {
        assert(done.push(cur).drop_last() =~= done);
        assert forall|k: int| 0 <= k < done.push(cur).len() implies is_section(#[trigger] done.push(cur)[k]) by {
            if k < done.len() {
                assert(done.push(cur)[k] == done[k]);
            }
        }
    } else {
        assert(flatten(done) + cur =~= flatten(done));
    }
}

/// Sections as the program holds them.
pub open spec fn sections_view(v: Seq<Vec<Transform>>) -> Seq<Seq<TransformV>> {
    v.map_values(|s: Vec<Transform>| transforms_view(s@))
}

/// Split a transform list into sections separated by Animation markers.
/// Empty sections (consecutive, leading or trailing markers) are dropped;
/// no section holds a marker.
pub fn split_transform_sections(transforms: &Vec<Transform>) -> (r: Vec<Vec<Transform>>)
    ensures
        sections_view(r@) == sections(transforms_view(transforms@)),
{
    let ghost tv = transforms_view(transforms@);
    let mut done: Vec<Vec<Transform>> = Vec::new();
    let mut cur: Vec<Transform> = Vec::new();
    let n = transforms.len();
    assert(sections_view(done@) =~= Seq::<Seq<TransformV>>::empty());
    assert(transforms_view(cur@) =~= Seq::<TransformV>::empty());
    for i in 0..n
        invariant
            n == transforms@.len(),
            tv == transforms_view(transforms@),
            sections_state(tv.take(i as int)) == (sections_view(done@), transforms_view(cur@)),
    {
        assert(tv.take(i + 1).drop_last() =~= tv.take(i as int));
        assert(tv.take(i + 1).last() == transforms@[i as int]@);
        let ghost d0 = sections_view(done@);
        let ghost c0 = transforms_view(cur@);
        let is_marker = match &transforms[i] {
            Transform::Animation => true,
            _ => false,
        };
        if is_marker {
            if cur.len() > 0 {
                let finished = cur;
                cur = Vec::new();
                done.push(finished);
                assert(sections_view(done@) =~= d0.push(c0));
                assert(transforms_view(cur@) =~= Seq::<TransformV>::empty());
            }
        } else {
            cur.push(copy_transform(&transforms[i]));
            assert(transforms_view(cur@) =~= c0.push(tv[i as int]));
        }
    }
    assert(tv.take(n as int) =~= tv);
    if cur.len() > 0 {
        let ghost d0 = sections_view(done@);
        let ghost c0 = transforms_view(cur@);
        done.push(cur);
        assert(sections_view(done@) =~= d0.push(c0));
    }
    done
}

// ---------------------------------------------------------------------------
// Checking a configuration.

/// Why a configuration was refused.
#[derive(Debug)]
pub enum ConfigError {
    /// The configuration has no steps.
    NoSteps,
    /// The first step names no source.
    FirstStepWithoutSource,
    /// A step's source is neither the root source, a file, nor an earlier
    /// output; the sources available at that step.
    UnknownSource { step: u64, from: String, available: Vec<String> },
    /// A title-slide step names a bounding-box tag.
    BoundingBoxOnTitleSlide { step: u64, output: String },
}

/// A [`ConfigError`] seen mathematically.
pub enum ConfigErrorV {
    NoSteps,
    FirstStepWithoutSource,
    UnknownSource { step: nat, from: Seq<char>, available: Seq<Seq<char>> },
    BoundingBoxOnTitleSlide { step: nat, output: Seq<char> },
}

impl View for ConfigError {
    type V = ConfigErrorV;

    open spec fn view(&self) -> ConfigErrorV {
        match self {
            ConfigError::NoSteps => ConfigErrorV::NoSteps,
            ConfigError::FirstStepWithoutSource => ConfigErrorV::FirstStepWithoutSource,
            ConfigError::UnknownSource { step, from, available } => ConfigErrorV::UnknownSource {
                step: *step as nat,
                from: from@,
                available: available@.map_values(|a: String| a@),
            },
            ConfigError::BoundingBoxOnTitleSlide { step, output } => ConfigErrorV::BoundingBoxOnTitleSlide {
                step: *step as nat,
                output: output@,
            },
        }
    }
}

/// The message of a configuration error.
pub open spec fn config_error_text(e: ConfigErrorV) -> Seq<char> {
    match e {
        ConfigErrorV::NoSteps => "Error: 'derived' list is empty — nothing to do."@,
        ConfigErrorV::FirstStepWithoutSource => "Error: the first derived step must have an explicit 'from' field."@,
        ConfigErrorV::UnknownSource { step, from, available } => "Error in step "@ + decimal(step) + ": 'from' field '"@
            + from + "' is not the source file, a local file, nor the output of a previous step.\nAvailable sources at this point: ["@
            + join(available, ", "@) + "]"@,
        ConfigErrorV::BoundingBoxOnTitleSlide { step, output } => "Error in step "@ + decimal(step) + " ('"@ + output
            + "'): 'bounding_box_tag' cannot be used with a TitleSlide transform — TitleSlide generates fresh XML without the original diagram cells."@,
    }
}

impl ConfigError {
    /// The error's message.
    pub fn message(&self) -> (m: String)
        ensures
            m@ == config_error_text(self@),
    {
        let mut out: Vec<char> = Vec::new();
        match self {
            ConfigError::NoSteps => {
                push_str(&mut out, "Error: 'derived' list is empty — nothing to do.");
            },
            ConfigError::FirstStepWithoutSource => {
                push_str(&mut out, "Error: the first derived step must have an explicit 'from' field.");
            },
            ConfigError::UnknownSource { step, from, available } => {
                push_str(&mut out, "Error in step ");
                push_decimal(&mut out, *step);
                push_str(&mut out, ": 'from' field '");
                push_str(&mut out, from.as_str());
                push_str(
                    &mut out,
                    "' is not the source file, a local file, nor the output of a previous step.\nAvailable sources at this point: [",
                );
                let mut parts: Vec<Vec<char>> = Vec::new();
                let m = available.len();
                for i in 0..m
                    invariant
                        m == available@.len(),
                        parts@.len() == i,
                        forall|j: int| 0 <= j < i ==> (#[trigger] parts@[j])@ == available@[j]@,
                {
                    parts.push(to_chars(available[i].as_str()));
                }
                assert(char_seqs(parts@) =~= available@.map_values(|a: String| a@));
                let sep = to_chars(", ");
                let joined = join_chars(&parts, &sep);
                push_all(&mut out, &joined);
                push_str(&mut out, "]");
            },
            ConfigError::BoundingBoxOnTitleSlide { step, output } => {
                push_str(&mut out, "Error in step ");
                push_decimal(&mut out, *step);
                push_str(&mut out, " ('");
                push_str(&mut out, output.as_str());
                push_str(
                    &mut out,
                    "'): 'bounding_box_tag' cannot be used with a TitleSlide transform — TitleSlide generates fresh XML without the original diagram cells.",
                );
            },
        }
        from_chars(&out)
    }
}

/// The sources available to step `i`: the first step's source, then the
/// outputs of the steps before `i`.
pub open spec fn sources_before(ds: Seq<DerivedV>, i: int) -> Seq<Seq<char>> {
    seq![ds[0].from.unwrap()] + Seq::new(i as nat, |k: int| ds[k].output)
}

/// The error of step `i`, if any: an unknown source (neither available nor
/// an existing file, as `is_file` tells), or a bounding-box tag on a title
/// slide.
pub open spec fn step_error(ds: Seq<DerivedV>, i: int, is_file: Seq<bool>) -> Option<ConfigErrorV> {
    let from = match ds[i].from {
        Some(f) => f,
        None => Seq::empty(),
    };
    let avail = sources_before(ds, i);
    if from.len() > 0 && !avail.contains(from) && !is_file[i] {
        Some(ConfigErrorV::UnknownSource { step: (i + 1) as nat, from, available: distinct(avail) })
    } else if ds[i].bounding_box_tag is Some && is_title_step(ds[i].transforms) {
        Some(ConfigErrorV::BoundingBoxOnTitleSlide { step: (i + 1) as nat, output: ds[i].output })
    } else {
        None
    }
}

/// The first error of the steps from `i` on.
pub open spec fn steps_error(ds: Seq<DerivedV>, i: int, is_file: Seq<bool>) -> Option<ConfigErrorV>
    decreases ds.len() - i,
{
    if i < 0 || i >= ds.len() {
        None
    } else {
        match step_error(ds, i, is_file) {
            Some(e) => Some(e),
            None => steps_error(ds, i + 1, is_file),
        }
    }
}

/// The first error of a configuration, if any.
pub open spec fn config_error(ds: Seq<DerivedV>, is_file: Seq<bool>) -> Option<ConfigErrorV> {
    if ds.len() == 0 {
        Some(ConfigErrorV::NoSteps)
    } else if ds[0].from is None {
        Some(ConfigErrorV::FirstStepWithoutSource)
    } else {
        steps_error(ds, 0, is_file)
    }
}

/// Check a configuration whose missing sources were filled in: it has
/// steps, the first names its source, every source is the root source, an
/// existing file (`from_is_file[i]` tells whether step `i`'s source is one),
/// or the output of an earlier step, and no title slide has a bounding-box
/// tag.
pub fn validate_config(config: &Config, from_is_file: &Vec<bool>) -> (r: Result<(), ConfigError>)
    requires
        from_is_file@.len() == config.derived@.len(),
    ensures
        match config_error(steps_view(config.derived@), from_is_file@) {
            Some(e) => r matches Err(x) && x@ == e,
            None => r is Ok,
        },
{
    let ghost dv = steps_view(config.derived@);
    let n = config.derived.len();
    if n == 0 {
        return Err(ConfigError::NoSteps);
    }
    assert(dv[0] == config.derived@[0]@);
    let root = match &config.derived[0].from {
        Some(f) => to_chars(f.as_str()),
        None => {
            return Err(ConfigError::FirstStepWithoutSource);
        },
    };
    let mut avail: Vec<Vec<char>> = Vec::new();
    avail.push(root);
    assert(char_seqs(avail@) =~= sources_before(dv, 0));
    assert(dv.skip(0) =~= dv);
    let mut i: usize = 0;
    while i < n
        invariant
            i <= n,
            n == config.derived@.len(),
            n == from_is_file@.len(),
            dv == steps_view(config.derived@),
            dv[0].from is Some,
            char_seqs(avail@) == sources_before(dv, i as int),
            config_error(dv, from_is_file@) == steps_error(dv, i as int, from_is_file@),
        decreases n - i,
    {
        assert(dv[i as int] == config.derived@[i as int]@);
        let from = match &config.derived[i].from {
            Some(f) => to_chars(f.as_str()),
            None => Vec::new(),
        };
        if from.len() > 0 && !contains_chars(&avail, &from) && !from_is_file[i] {
            let listed = distinct_chars(&avail);
            let mut available: Vec<String> = Vec::new();
            let m = listed.len();
            for j in 0..m
                invariant
                    m == listed@.len(),
                    available@.len() == j,
                    forall|q: int| 0 <= q < j ==> (#[trigger] available@[q])@ == listed@[q]@,
            {
                available.push(from_chars(&listed[j]));
            }
            assert(available@.map_values(|a: String| a@) =~= char_seqs(listed@));
            return Err(ConfigError::UnknownSource { step: i as u64 + 1, from: from_chars(&from), available });
        }
        if config.derived[i].bounding_box_tag.is_some() && is_title_slide(&config.derived[i]) {
            return Err(ConfigError::BoundingBoxOnTitleSlide { step: i as u64 + 1, output: config.derived[i].output.clone() });
        }
        let ghost before = char_seqs(avail@);
        avail.push(to_chars(config.derived[i].output.as_str()));
        assert(char_seqs(avail@) =~= sources_before(dv, i + 1)) by {
            assert(char_seqs(avail@) =~= before.push(dv[i as int].output));
        }
        i += 1;
    }
    Ok(())
}

} // verus!
