//! The site's languages, versions and localized words.
use vstd::prelude::*;

verus! {

/// The version shown by default, as a position in the list of versions.
pub const LATEST: usize = 1;

/// The version still in the making, as a position in the list of versions.
pub const UNPUBLISHED: usize = 0;

/// A language of the site.
#[derive(Clone, Copy, Debug, PartialEq, Eq, Structural)]
pub enum Lang {
    En,
    ZhCn,
}

/// The localized words of the site.
#[derive(Debug, PartialEq)]
pub struct Metadata {
    pub title: &'static str,
    pub description: &'static str,
    pub note: &'static str,
    pub docs: &'static str,
    pub color_scheme: &'static str,
    pub mode: &'static str,
    pub build_with: &'static str,
    pub deploys_on: &'static str,
    pub get_started: &'static str,
}

/// `m` holds the words of `lang`.
pub open spec fn is_metadata_of(m: Metadata, lang: Lang) -> bool {
    match lang {
        Lang::En => {
            &&& m.title@ == "Viz"@
            &&& m.description@ == "Fast, robust, flexible, lightweight web framework for Rust"@
            &&& m.note@ == ""@
            &&& m.docs@ == "Docs"@
            &&& m.color_scheme@ == "Switch to"@
            &&& m.mode@ == "mode"@
            &&& m.build_with@ == "Built with"@
            &&& m.deploys_on@ == "Deploys on"@
            &&& m.get_started@ == "Get Started"@
        },
        Lang::ZhCn => {
            &&& m.title@ == "Viz"@
            &&& m.description@ == "快速、轻量、灵活、健壮的 Rust Web 框架"@
            &&& m.note@ == ""@
            &&& m.docs@ == "文档"@
            &&& m.color_scheme@ == "切换到"@
            &&& m.mode@ == "模式"@
            &&& m.build_with@ == "构建于"@
            &&& m.deploys_on@ == "部署在"@
            &&& m.get_started@ == "快速上手"@
        },
    }
}

/// The words of the site in `lang`.
pub fn metadata(lang: Lang) -> (r: Metadata)
    ensures
        is_metadata_of(r, lang),
{
    match lang {
        Lang::En => Metadata {
            title: "Viz",
            description: "Fast, robust, flexible, lightweight web framework for Rust",
            note: "",
            docs: "Docs",
            color_scheme: "Switch to",
            mode: "mode",
            build_with: "Built with",
            deploys_on: "Deploys on",
            get_started: "Get Started",
        },
        Lang::ZhCn => Metadata {
            title: "Viz",
            description: "快速、轻量、灵活、健壮的 Rust Web 框架",
            note: "",
            docs: "文档",
            color_scheme: "切换到",
            mode: "模式",
            build_with: "构建于",
            deploys_on: "部署在",
            get_started: "快速上手",
        },
    }
}

/// The language codes of the site.
pub open spec fn is_lang_code(s: Seq<char>) -> bool {
    s == "en"@ || s == "zh-CN"@ || s == "zh-TW"@
}

/// The documented versions.
pub open spec fn is_version(s: Seq<char>) -> bool {
    s == "0.5.x"@ || s == "0.4.x"@
}

/// `lang` is one of the site's language codes.
pub fn langs_contains(lang: &str) -> (r: bool)
    ensures
        r == is_lang_code(lang@),
{
    let l = String::from_str(lang);
    l == String::from_str("en") || l == String::from_str("zh-CN") || l == String::from_str("zh-TW")
}

/// `version` is one of the documented versions.
pub fn versions_contains(version: &str) -> (r: bool)
    ensures
        r == is_version(version@),
{
    let v = String::from_str(version);
    v == String::from_str("0.5.x") || v == String::from_str("0.4.x")
}

/// The parameters of a document's route.
#[derive(Clone, Debug, Default, PartialEq)]
pub struct DocumentParams {
    pub lang: Option<String>,
    pub version: Option<String>,
    pub tail: Option<String>,
}

} // verus!
