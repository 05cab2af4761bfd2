//! The regions of the WorkBuddy page that a theme styles, their fixed selectors and
//! labels, and the bounds a regional design must respect. Neither stored data nor the
//! user interface can supply a selector.
use vstd::prelude::*;
use crate::color::parse_hex;
use crate::error::{AppError, AppResult};

verus! {

/// A styled region of the page.
#[derive(PartialEq, Eq, Structural, Clone, Copy, Debug)]
pub enum Region {
    Sidebar,
    Main,
    Composer,
    UserMessage,
    AssistantMessage,
    PrimaryButton,
    SecondaryButton,
    Menu,
    Dialog,
}

/// Every region, in declaration order.
pub open spec fn all_regions() -> Seq<Region> {
    seq![
        Region::Sidebar,
        Region::Main,
        Region::Composer,
        Region::UserMessage,
        Region::AssistantMessage,
        Region::PrimaryButton,
        Region::SecondaryButton,
        Region::Menu,
        Region::Dialog,
    ]
}

/// Every region, in declaration order.
pub fn regions() -> (r: Vec<Region>)
    ensures
        r@ == all_regions(),
{
    vec![
        Region::Sidebar,
        Region::Main,
        Region::Composer,
        Region::UserMessage,
        Region::AssistantMessage,
        Region::PrimaryButton,
        Region::SecondaryButton,
        Region::Menu,
        Region::Dialog,
    ]
}

/// The fixed CSS selector of a region.
pub open spec fn selector_of(r: Region) -> &'static str {
    match r {
        Region::Sidebar => ".conversation-sidebar",
        Region::Main => ".wb-home-page,.main-content--chat,.expert-center-page,.skills-view,.connector-panel,.claw-workspace",
        Region::Composer => ".wb-home-composer__input-slot>section,.chat-container:not(.chat-container--welcome) section",
        Region::UserMessage => "[id^='user-message-'] [class*='_userMessageBubble_']",
        Region::AssistantMessage => ".cb-assistant-message",
        Region::PrimaryButton => "button[type='submit'],.cb-button--primary,[class*='_iconBtnSend_'],.t-button--theme-primary,.button-primary,[data-studio-primary]",
        Region::SecondaryButton => "button,[role='button'],[role='tab']",
        Region::Menu => "[role='menu'],[role='listbox'],[role='tooltip']",
        Region::Dialog => "[role='dialog']",
    }
}

impl Region {
    /// The fixed CSS selector of this region.
    pub fn selector(self) -> (r: &'static str)
        ensures
            r == selector_of(self),
    {
        match self {
            Region::Sidebar => ".conversation-sidebar",
            Region::Main => ".wb-home-page,.main-content--chat,.expert-center-page,.skills-view,.connector-panel,.claw-workspace",
            Region::Composer => ".wb-home-composer__input-slot>section,.chat-container:not(.chat-container--welcome) section",
            Region::UserMessage => "[id^='user-message-'] [class*='_userMessageBubble_']",
            Region::AssistantMessage => ".cb-assistant-message",
            Region::PrimaryButton => "button[type='submit'],.cb-button--primary,[class*='_iconBtnSend_'],.t-button--theme-primary,.button-primary,[data-studio-primary]",
            Region::SecondaryButton => "button,[role='button'],[role='tab']",
            Region::Menu => "[role='menu'],[role='listbox'],[role='tooltip']",
            Region::Dialog => "[role='dialog']",
        }
    }
}

/// The label of a region in contrast reports of the offline compiler.
pub fn label(r: Region) -> (s: &'static str)
    ensures
        s == (match r {
            Region::Main => "主背景",
            Region::Sidebar => "侧栏",
            Region::Composer => "输入框",
            Region::UserMessage => "用户消息",
            Region::AssistantMessage => "助手消息",
            Region::PrimaryButton => "主要按钮",
            Region::SecondaryButton => "次要按钮",
            Region::Menu => "菜单",
            Region::Dialog => "弹窗",
        }),
{
    match r {
        Region::Main => "主背景",
        Region::Sidebar => "侧栏",
        Region::Composer => "输入框",
        Region::UserMessage => "用户消息",
        Region::AssistantMessage => "助手消息",
        Region::PrimaryButton => "主要按钮",
        Region::SecondaryButton => "次要按钮",
        Region::Menu => "菜单",
        Region::Dialog => "弹窗",
    }
}

/// The label of a region in contrast reports of the image fusion.
pub fn fusion_label(r: Region) -> (s: &'static str)
    ensures
        s == (match r {
            Region::Main => "主画布",
            Region::Sidebar => "侧栏",
            Region::Composer => "输入框",
            Region::AssistantMessage => "助手消息",
            Region::UserMessage => "用户消息",
            Region::PrimaryButton => "主按钮",
            Region::SecondaryButton => "次按钮",
            Region::Menu => "菜单",
            Region::Dialog => "弹窗",
        }),
{
    match r {
        Region::Main => "主画布",
        Region::Sidebar => "侧栏",
        Region::Composer => "输入框",
        Region::AssistantMessage => "助手消息",
        Region::UserMessage => "用户消息",
        Region::PrimaryButton => "主按钮",
        Region::SecondaryButton => "次按钮",
        Region::Menu => "菜单",
        Region::Dialog => "弹窗",
    }
}

/// The key of a region in image fusion reports.
pub fn fusion_key(r: Region) -> (s: &'static str)
    ensures
        s == (match r {
            Region::Main => "main",
            Region::Sidebar => "sidebar",
            Region::Composer => "composer",
            Region::AssistantMessage => "assistant",
            Region::UserMessage => "user",
            Region::PrimaryButton => "primary",
            Region::SecondaryButton => "secondary",
            Region::Menu => "menu",
            Region::Dialog => "dialog",
        }),
{
    match r {
        Region::Main => "main",
        Region::Sidebar => "sidebar",
        Region::Composer => "composer",
        Region::AssistantMessage => "assistant",
        Region::UserMessage => "user",
        Region::PrimaryButton => "primary",
        Region::SecondaryButton => "secondary",
        Region::Menu => "menu",
        Region::Dialog => "dialog",
    }
}

/// The selector the image fusion styles for a region: the content wrapper for the
/// main canvas (so the top bar and chat share one veil), the send icons as well for
/// the primary button, and the region's own selector otherwise.
pub fn fusion_selector(r: Region) -> (s: &'static str)
    ensures
        s == (match r {
            Region::Main => ".teams-content-wrapper",
            Region::PrimaryButton => "button[type='submit'],.cb-button--primary,[class*='_iconBtnSend_'],.t-button--theme-primary,.button-primary,[data-studio-primary],.chat-container section [class*='_icon_'][class*='_large_'],.wb-home-composer__input-slot>section [class*='_icon_'][class*='_large_']",
            _ => selector_of(r),
        }),
{
    match r {
        Region::Main => ".teams-content-wrapper",
        Region::PrimaryButton => "button[type='submit'],.cb-button--primary,[class*='_iconBtnSend_'],.t-button--theme-primary,.button-primary,[data-studio-primary],.chat-container section [class*='_icon_'][class*='_large_'],.wb-home-composer__input-slot>section [class*='_icon_'][class*='_large_']",
        _ => r.selector(),
    }
}

/// How a region is lifted off the page (`Flat`: no shadow).
#[derive(PartialEq, Eq, Structural, Clone, Copy, Debug)]
pub enum Shadow {
    Flat,
    Soft,
    Raised,
}

/// The style of one region.
#[derive(Debug)]
pub struct RegionStyle {
    pub background: String,
    pub text: String,
    pub muted: String,
    pub border: String,
    pub hover: String,
    pub selected: String,
    pub focus_ring: String,
    pub opacity: u8,
    pub shadow: Shadow,
}

/// A regional design: the styles of the regions, the background focus, the veil and an
/// explanation. The regions are held as a list of pairs; a valid design styles each
/// region exactly once (`lemma_valid_design_is_a_map`), so the list is a map, and
/// lookups by region find that one style. Their order carries no meaning.
#[derive(Debug)]
pub struct DesignAdvice {
    pub regions: Vec<(Region, RegionStyle)>,
    pub background_x: u8,
    pub background_y: u8,
    pub veil: u8,
    pub explanation: String,
}

/// A style with an opacity percentage and seven `#RRGGBB` colours.
pub open spec fn style_valid(s: RegionStyle) -> bool {
    &&& s.opacity <= 100
    &&& parse_hex(s.background@) is Some
    &&& parse_hex(s.text@) is Some
    &&& parse_hex(s.muted@) is Some
    &&& parse_hex(s.border@) is Some
    &&& parse_hex(s.hover@) is Some
    &&& parse_hex(s.selected@) is Some
    &&& parse_hex(s.focus_ring@) is Some
}

/// Whether `regions` holds a style for `r`.
pub open spec fn styles_region(regions: Seq<(Region, RegionStyle)>, r: Region) -> bool {
    exists|i: int| 0 <= i < regions.len() && (#[trigger] regions[i]).0 == r
}

/// A design styles exactly the nine regions, keeps its focus inside the image, its veil
/// at most 80 %, its explanation at most 800 characters, and every style valid.
pub open spec fn design_valid(d: DesignAdvice) -> bool {
    &&& d.regions@.len() == 9
    &&& forall|r: Region| #[trigger] styles_region(d.regions@, r)
    &&& d.background_x <= 100
    &&& d.background_y <= 100
    &&& d.veil <= 80
    &&& d.explanation@.len() <= 800
    &&& forall|i: int| 0 <= i < d.regions@.len() ==> style_valid(#[trigger] d.regions@[i].1)
}

/// The regions a design styles, in its order.
pub open spec fn region_keys(regions: Seq<(Region, RegionStyle)>) -> Seq<Region> {
    regions.map_values(|p: (Region, RegionStyle)| p.0)
}

/// A valid design is a map from regions to styles: it styles each region exactly once,
/// so looking a region up finds its one style.
pub proof fn lemma_valid_design_is_a_map(d: DesignAdvice)
    requires
        design_valid(d),
    ensures
        forall|i: int, j: int|
            0 <= i < j < d.regions@.len() ==> (#[trigger] d.regions@[i]).0 != (#[trigger] d.regions@[j]).0,
{
    let keys = region_keys(d.regions@);
    let all = all_regions();
    assert(all.no_duplicates());
    all.unique_seq_to_set();
    assert forall|r: Region| all.to_set().contains(r) implies keys.to_set().contains(r) by {
        assert(styles_region(d.regions@, r));
        let i = choose|i: int| 0 <= i < d.regions@.len() && (#[trigger] d.regions@[i]).0 == r;
        assert(keys[i] == r);
    }
    vstd::seq_lib::seq_to_set_is_finite(keys);
    vstd::set_lib::lemma_len_subset(all.to_set(), keys.to_set());
    keys.lemma_cardinality_of_set();
    keys.lemma_no_dup_set_cardinality();
    assert forall|i: int, j: int| 0 <= i < j < d.regions@.len() implies (#[trigger] d.regions@[i]).0
        != (#[trigger] d.regions@[j]).0 by {
        assert(keys[i] == d.regions@[i].0);
        assert(keys[j] == d.regions@[j].0);
    }
}

fn style_ok(s: &RegionStyle) -> (r: bool)
    ensures
        r == style_valid(*s),
{
    s.opacity <= 100 && crate::color::parse_hex_color(s.background.as_str()).is_some()
        && crate::color::parse_hex_color(s.text.as_str()).is_some() && crate::color::parse_hex_color(
        s.muted.as_str(),
    ).is_some() && crate::color::parse_hex_color(s.border.as_str()).is_some()
        && crate::color::parse_hex_color(s.hover.as_str()).is_some()
        && crate::color::parse_hex_color(s.selected.as_str()).is_some()
        && crate::color::parse_hex_color(s.focus_ring.as_str()).is_some()
}

fn has_region(regions: &Vec<(Region, RegionStyle)>, r: Region) -> (b: bool)
    ensures
        b == styles_region(regions@, r),
{
    let mut i: usize = 0;
    while i < regions.len()
        invariant
            i <= regions@.len(),
            forall|j: int| 0 <= j < i ==> (#[trigger] regions@[j]).0 != r,
        decreases regions@.len() - i,
    {
        if regions[i].0 == r {
            return true;
        }
        i = i + 1;
    }
    false
}

fn design_invalid() -> (e: AppError)
    ensures
        e.code@ == "DESIGN_INVALID"@,
{
    AppError::new("DESIGN_INVALID", "分区设计包含无效颜色、范围或区域，已保留当前方案。")
}

/// Refuses a design outside the bounds; the current design is then kept.
pub fn validate(d: &DesignAdvice) -> (r: AppResult<()>)
    ensures
        match r {
            Ok(()) => design_valid(*d),
            Err(e) => !design_valid(*d) && e.code@ == "DESIGN_INVALID"@,
        },
{
    let all = regions();
    let mut every = true;
    let mut k: usize = 0;
    while k < all.len()
        invariant
            k <= all@.len(),
            all@ == all_regions(),
            every == forall|j: int| 0 <= j < k ==> #[trigger] styles_region(d.regions@, all@[j]),
        decreases all@.len() - k,
    {
        if !has_region(&d.regions, all[k]) {
            every = false;
        }
        k = k + 1;
    }
    proof {
        if every {
            assert forall|r: Region| #[trigger] styles_region(d.regions@, r) by {
                match r {
                    Region::Sidebar => assert(styles_region(d.regions@, all@[0])),
                    Region::Main => assert(styles_region(d.regions@, all@[1])),
                    Region::Composer => assert(styles_region(d.regions@, all@[2])),
                    Region::UserMessage => assert(styles_region(d.regions@, all@[3])),
                    Region::AssistantMessage => assert(styles_region(d.regions@, all@[4])),
                    Region::PrimaryButton => assert(styles_region(d.regions@, all@[5])),
                    Region::SecondaryButton => assert(styles_region(d.regions@, all@[6])),
                    Region::Menu => assert(styles_region(d.regions@, all@[7])),
                    Region::Dialog => assert(styles_region(d.regions@, all@[8])),
                }
            }
        } else {
            let j = choose|j: int| 0 <= j < 9 && !#[trigger] styles_region(d.regions@, all@[j]);
            assert(!styles_region(d.regions@, all@[j]));
        }
    }
    let explanation_len = crate::text::chars_of(d.explanation.as_str()).len();
    if d.regions.len() != 9 || !every || d.background_x > 100 || d.background_y > 100 || d.veil > 80
        || explanation_len > 800 {
        return Err(design_invalid());
    }
    let mut i: usize = 0;
    while i < d.regions.len()
        invariant
            i <= d.regions@.len(),
            forall|j: int| 0 <= j < i ==> style_valid(#[trigger] d.regions@[j].1),
        decreases d.regions@.len() - i,
    {
        if !style_ok(&d.regions[i].1) {
            assert(!style_valid(d.regions@[i as int].1));
            return Err(design_invalid());
        }
        i = i + 1;
    }
    Ok(())
}

/// An image accepted for a theme is at least 64 × 64 pixels and at most 40 million.
pub fn validate_dimensions(width: u32, height: u32) -> (r: AppResult<()>)
    ensures
        r is Ok <==> (width >= 64 && height >= 64 && width * height <= 40_000_000),
        r matches Err(e) ==> e.code@ == "IMAGE_DIMENSIONS_INVALID"@,
{
    let w = width as u64;
    let h = height as u64;
    assert(w * h <= u64::MAX) by (nonlinear_arith)
        requires
            w <= u32::MAX,
            h <= u32::MAX,
    ;
    if width < 64 || height < 64 || w * h > 40_000_000 {
        return Err(AppError::new("IMAGE_DIMENSIONS_INVALID", "图片至少 64×64 且不超过 4000 万像素。"));
    }
    Ok(())
}

} // verus!
