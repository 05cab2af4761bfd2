//! The decisions of a draft edit that need no colour arithmetic: whether it switches the
//! offline style, the veil each style starts from, which regional styles become manual
//! choices, and when the background position counts as one.
use vstd::prelude::*;
use crate::error::{AppError, AppResult};
use crate::region::{region_keys, styles_region, DesignAdvice, Region, RegionStyle};
use crate::text::same_text;

verus! {

/// An offline style profile.
#[derive(PartialEq, Eq, Structural, Clone, Copy, Debug)]
pub enum StyleName {
    AiryLight,
    WarmPaper,
    CalmDark,
}

/// A style profile in one version of the profile set.
#[derive(PartialEq, Eq, Structural, Clone, Copy, Debug)]
pub struct StyleChoice {
    pub id: StyleName,
    pub version: u32,
}

/// The veil a style starts from: none in version 2, else 12 % for the dark profile and
/// 8 % for the others.
pub open spec fn veil_for(s: StyleChoice) -> u8 {
    if s.version == 2 {
        0
    } else if s.id == StyleName::CalmDark {
        12
    } else {
        8
    }
}

/// The veil `style` starts from.
pub fn default_veil(style: StyleChoice) -> (r: u8)
    ensures
        r == veil_for(style),
{
    if style.version == 2 {
        return 0;
    }
    match style.id {
        StyleName::CalmDark => 12,
        _ => 8,
    }
}

/// An edit switches the style when it asks for a style other than the current one, or
/// asks to reset to the style's defaults.
pub open spec fn switches(current: Option<StyleChoice>, requested: Option<StyleChoice>, reset: bool) -> bool {
    (requested matches Some(s) && Some(s) != current) || reset
}

/// The style a switch goes to: the requested one, else the current one.
pub open spec fn target_style(current: Option<StyleChoice>, requested: Option<StyleChoice>) -> Option<
    StyleChoice,
> {
    match requested {
        Some(s) => Some(s),
        None => current,
    }
}

/// The style an edit switches to, or `None` when it keeps the current style. A switch
/// needs a style, and never moves a draft to another version of the profile set (that
/// takes a new copy).
pub fn edit_style(current: Option<StyleChoice>, requested: Option<StyleChoice>, reset: bool) -> (r:
    AppResult<Option<StyleChoice>>)
    ensures
        match r {
            Ok(None) => !switches(current, requested, reset),
            Ok(Some(s)) => switches(current, requested, reset) && target_style(current, requested)
                == Some(s) && !(current matches Some(o) && o.version != s.version),
            Err(e) => switches(current, requested, reset) && match target_style(current, requested) {
                None => e.code@ == "STYLE_REQUIRED"@,
                Some(s) => (current matches Some(o) && o.version != s.version) && e.code@
                    == "STYLE_COPY_REQUIRED"@,
            },
        },
{
    let asks_other = match requested {
        Some(s) => match current {
            Some(c) => s != c,
            None => true,
        },
        None => false,
    };
    if !asks_other && !reset {
        return Ok(None);
    }
    let style = match requested {
        Some(s) => s,
        None => match current {
            Some(c) => c,
            None => {
                return Err(AppError::new("STYLE_REQUIRED", "请先选择离线风格。"));
            },
        },
    };
    if let Some(old) = current {
        if old.version != style.version {
            return Err(AppError::new("STYLE_COPY_REQUIRED", "请创建新版融合副本，原稿和旧修订不会自动升级。"));
        }
    }
    Ok(Some(style))
}

/// Only matching versions of a style profile and an image analysis can be edited: both
/// 1 or both 2.
pub fn style_version_check(style_version: u32, analysis_version: u32) -> (r: AppResult<()>)
    ensures
        r is Ok <==> ((style_version == 1 && analysis_version == 1) || (style_version == 2
            && analysis_version == 2)),
        r matches Err(e) ==> e.code@ == "STYLE_VERSION_UNSUPPORTED"@,
{
    if (style_version == 1 && analysis_version == 1) || (style_version == 2 && analysis_version
        == 2) {
        Ok(())
    } else {
        Err(AppError::new("STYLE_VERSION_UNSUPPORTED", "此风格或分析版本尚不支持编辑；已保存效果未被改变。"))
    }
}

/// How an accepted edit changes a draft's bookkeeping.
#[derive(PartialEq, Eq, Structural, Clone, Copy, Debug)]
pub struct EditOutcome {
    /// The schema version after the edit.
    pub schema_version: u32,
    /// The draft keeps the submitted controls (else it takes the new style's defaults).
    pub submitted_controls: bool,
    /// The manual overrides start over.
    pub clear_overrides: bool,
    /// Region styles that differ from the earlier design become manual overrides.
    pub track_region_overrides: bool,
}

/// The bookkeeping of an edit. A style switch makes the draft a version-3 document,
/// starts its manual overrides over, and keeps the submitted controls only for a
/// version-2 profile (a version-1 profile brings its own defaults). Without a switch the
/// submitted controls are kept; a version-3 draft records the regions the edit restyles,
/// and an earlier draft that receives a design becomes version 2.
pub fn edit_outcome(schema_version: u32, switched: Option<StyleChoice>, design_given: bool) -> (r:
    EditOutcome)
    ensures
        match switched {
            Some(s) => r.schema_version == 3 && r.submitted_controls == (s.version == 2)
                && r.clear_overrides && !r.track_region_overrides,
            None => r.submitted_controls && !r.clear_overrides && r.track_region_overrides == (
            schema_version == 3 && design_given) && r.schema_version == if schema_version != 3
                && design_given {
                2
            } else {
                schema_version
            },
        },
{
    match switched {
        Some(s) => EditOutcome {
            schema_version: 3,
            submitted_controls: s.version == 2,
            clear_overrides: true,
            track_region_overrides: false,
        },
        None => {
            let schema = if schema_version != 3 && design_given {
                2
            } else {
                schema_version
            };
            EditOutcome {
                schema_version: schema,
                submitted_controls: true,
                clear_overrides: false,
                track_region_overrides: schema_version == 3 && design_given,
            }
        },
    }
}

/// The background position is a manual choice when its focus left the centre or its
/// veil differs from the style's own.
pub fn position_override(style: StyleChoice, x: u8, y: u8, veil: u8) -> (r: bool)
    ensures
        r == (x != 50 || y != 50 || veil != veil_for(style)),
{
    x != 50 || y != 50 || veil != default_veil(style)
}

/// Two region styles with the same colours, opacity and shadow.
pub open spec fn same_style(a: RegionStyle, b: RegionStyle) -> bool {
    &&& a.background@ == b.background@
    &&& a.text@ == b.text@
    &&& a.muted@ == b.muted@
    &&& a.border@ == b.border@
    &&& a.hover@ == b.hover@
    &&& a.selected@ == b.selected@
    &&& a.focus_ring@ == b.focus_ring@
    &&& a.opacity == b.opacity
    &&& a.shadow == b.shadow
}

/// `i` is the first place of region `r` in `regions`.
pub open spec fn first_place(regions: Seq<(Region, RegionStyle)>, r: Region, i: int) -> bool {
    &&& 0 <= i < regions.len()
    &&& regions[i].0 == r
    &&& forall|j: int| 0 <= j < i ==> (#[trigger] regions[j]).0 != r
}

/// A region style of an edited design is a manual choice when there was no design
/// before, or the earlier design styled that region differently.
pub open spec fn style_changed(old: Option<DesignAdvice>, item: (Region, RegionStyle)) -> bool {
    match old {
        None => true,
        Some(o) => exists|i: int|
            first_place(o.regions@, item.0, i) && !same_style(#[trigger] o.regions@[i].1, item.1),
    }
}

/// The region styles of `items` that are manual choices against `old`, in order.
pub open spec fn changed_styles(old: Option<DesignAdvice>, items: Seq<(Region, RegionStyle)>) -> Seq<
    (Region, RegionStyle),
>
    decreases items.len(),
{
    if items.len() == 0 {
        Seq::empty()
    } else {
        let rest = changed_styles(old, items.drop_last());
        if style_changed(old, items.last()) {
            rest.push(items.last())
        } else {
            rest
        }
    }
}

fn copy_style(s: &RegionStyle) -> (r: RegionStyle)
    ensures
        r == *s,
{
    RegionStyle {
        background: s.background.clone(),
        text: s.text.clone(),
        muted: s.muted.clone(),
        border: s.border.clone(),
        hover: s.hover.clone(),
        selected: s.selected.clone(),
        focus_ring: s.focus_ring.clone(),
        opacity: s.opacity,
        shadow: s.shadow,
    }
}

fn same_region_style(a: &RegionStyle, b: &RegionStyle) -> (r: bool)
    ensures
        r == same_style(*a, *b),
{
    same_text(a.background.as_str(), b.background.as_str()) && same_text(a.text.as_str(), b.text.as_str())
        && same_text(a.muted.as_str(), b.muted.as_str()) && same_text(a.border.as_str(), b.border.as_str())
        && same_text(a.hover.as_str(), b.hover.as_str()) && same_text(
        a.selected.as_str(),
        b.selected.as_str(),
    ) && same_text(a.focus_ring.as_str(), b.focus_ring.as_str()) && a.opacity == b.opacity
        && a.shadow == b.shadow
}

fn find_region(regions: &Vec<(Region, RegionStyle)>, r: Region) -> (k: usize)
    requires
        styles_region(regions@, r),
    ensures
        first_place(regions@, r, k as int),
{
    let mut k: usize = 0;
    while k < regions.len()
        invariant
            k <= regions@.len(),
            styles_region(regions@, r),
            forall|j: int| 0 <= j < k ==> (#[trigger] regions@[j]).0 != r,
        decreases regions@.len() - k,
    {
        if regions[k].0 == r {
            return k;
        }
        k = k + 1;
    }
    proof {
        let i = choose|i: int| 0 <= i < regions@.len() && (#[trigger] regions@[i]).0 == r;
        assert(regions@[i].0 != r);
    }
    0
}

/// The region styles of an edited design that become manual choices: every style when
/// there was no design before, else those that differ from the earlier design's style
/// for the same region. The edit styles each region at most once, and an earlier design
/// styles every region the edit names.
pub fn changed_regions(old: &Option<DesignAdvice>, edited: &DesignAdvice) -> (r: Vec<(Region, RegionStyle)>)
    requires
        region_keys(edited.regions@).no_duplicates(),
        old matches Some(o) ==> forall|i: int|
            0 <= i < edited.regions@.len() ==> styles_region(o.regions@, (#[trigger] edited.regions@[i]).0),
    ensures
        r@ == changed_styles(*old, edited.regions@),
{
    let mut out: Vec<(Region, RegionStyle)> = Vec::new();
    let mut i: usize = 0;
    while i < edited.regions.len()
        invariant
            i <= edited.regions@.len(),
            out@ == changed_styles(*old, edited.regions@.take(i as int)),
            old matches Some(o) ==> forall|k: int|
                0 <= k < edited.regions@.len() ==> styles_region(
                    o.regions@,
                    (#[trigger] edited.regions@[k]).0,
                ),
        decreases edited.regions@.len() - i,
    {
        let item = &edited.regions[i];
        let changed = match old {
            None => true,
            Some(o) => {
                let k = find_region(&o.regions, item.0);
                let differs = !same_region_style(&o.regions[k].1, &item.1);
                proof {
                    if !differs {
                        assert forall|j: int|
                            first_place(o.regions@, item.0, j) implies same_style(
                            #[trigger] o.regions@[j].1,
                            item.1,
                        ) by {
                            if j < k {
                                assert(o.regions@[j].0 != item.0);
                            } else if j > k {
                                assert(o.regions@[k as int].0 != item.0);
                            }
                        }
                    }
                }
                differs
            },
        };
        proof {
            assert(edited.regions@.take(i + 1).drop_last() =~= edited.regions@.take(i as int));
            assert(edited.regions@.take(i + 1).last() == edited.regions@[i as int]);
        }
        if changed {
            out.push((item.0, copy_style(&item.1)));
        }
        i = i + 1;
    }
    assert(edited.regions@.take(edited.regions@.len() as int) =~= edited.regions@);
    out
}

proof fn lemma_prefix_unchanged(d: DesignAdvice, k: int)
    requires
        0 <= k <= d.regions@.len(),
        forall|i: int, j: int|
            0 <= i < j < d.regions@.len() ==> (#[trigger] d.regions@[i]).0 != (#[trigger] d.regions@[j]).0,
    ensures
        changed_styles(Some(d), d.regions@.take(k)) == Seq::<(Region, RegionStyle)>::empty(),
    decreases k,
{
    let s = d.regions@;
    if k > 0 {
        lemma_prefix_unchanged(d, k - 1);
        assert(s.take(k).drop_last() =~= s.take(k - 1));
        let item = s[k - 1];
        assert(s.take(k).last() == item);
        assert forall|i: int| first_place(s, item.0, i) implies same_style(
            #[trigger] s[i].1,
            item.1,
        ) by {
            if i < k - 1 {
                assert(s[i].0 != s[k - 1].0);
            } else if i > k - 1 {
                assert(s[k - 1].0 != item.0);
            }
        }
        assert(!style_changed(Some(d), item));
    }
}

/// Submitting a design again unchanged (each region styled once) records no manual
/// choice.
pub proof fn lemma_unchanged_design_records_nothing(d: DesignAdvice)
    requires
        forall|i: int, j: int|
            0 <= i < j < d.regions@.len() ==> (#[trigger] d.regions@[i]).0 != (#[trigger] d.regions@[j]).0,
    ensures
        changed_styles(Some(d), d.regions@) == Seq::<(Region, RegionStyle)>::empty(),
{
    lemma_prefix_unchanged(d, d.regions@.len() as int);
    assert(d.regions@.take(d.regions@.len() as int) =~= d.regions@);
}

} // verus!
