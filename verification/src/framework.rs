//! Framework detection from manifest text and marker files.

use vstd::prelude::*;
use crate::lines::{is_white_space, lead_from, lead_from_bounds};
use crate::snapshot::{Manifest, ProjectFile, RootFacts};
use crate::text::{
    chars_of, contains, contains_str, contains_text, extension, extension_of, find_from,
    first_occurrence, first_occurrence_is_first, is_text, occurs_at, push_text, string_of,
};

verus! {

/// The group under which a framework is listed.
#[derive(Clone, Copy, PartialEq, Eq, Structural, Debug)]
pub enum Category {
    Frontend,
    Backend,
    Testing,
    Other,
}

/// A framework or library that detection knows.
#[derive(Clone, Copy, PartialEq, Eq, Structural, Debug)]
pub enum Framework {
    React,
    Vue,
    Angular,
    Next,
    Three,
    Svelte,
    TailwindCss,
    MaterialUi,
    Bootstrap,
    ChakraUi,
    Express,
    NestJs,
    Fastify,
    Redux,
    MobX,
    Jest,
    Cypress,
    Django,
    Flask,
    FastApi,
    SqlAlchemy,
    Pytest,
    RubyOnRails,
    Laravel,
    Symfony,
    SpringBoot,
    Hibernate,
    AspNetCore,
}

impl Category {
    /// The group's name in a listing.
    pub open spec fn label(self) -> Seq<char> {
        match self {
            Category::Frontend => "Frontend"@,
            Category::Backend => "Backend"@,
            Category::Testing => "Testing"@,
            Category::Other => "Other"@,
        }
    }

    /// The group's name in a listing.
    pub fn name(self) -> (r: &'static str)
        ensures
            r@ == self.label(),
    {
        match self {
            Category::Frontend => "Frontend",
            Category::Backend => "Backend",
            Category::Testing => "Testing",
            Category::Other => "Other",
        }
    }
}

impl Framework {
    /// The name under which the framework is shown.
    pub open spec fn display_name(self) -> Seq<char> {
        match self {
            Framework::React => "React"@,
            Framework::Vue => "Vue.js"@,
            Framework::Angular => "Angular"@,
            Framework::Next => "Next.js"@,
            Framework::Three => "Three.js"@,
            Framework::Svelte => "Svelte"@,
            Framework::TailwindCss => "Tailwind CSS"@,
            Framework::MaterialUi => "Material UI"@,
            Framework::Bootstrap => "Bootstrap"@,
            Framework::ChakraUi => "Chakra UI"@,
            Framework::Express => "Express.js"@,
            Framework::NestJs => "NestJS"@,
            Framework::Fastify => "Fastify"@,
            Framework::Redux => "Redux"@,
            Framework::MobX => "MobX"@,
            Framework::Jest => "Jest"@,
            Framework::Cypress => "Cypress"@,
            Framework::Django => "Django"@,
            Framework::Flask => "Flask"@,
            Framework::FastApi => "FastAPI"@,
            Framework::SqlAlchemy => "SQLAlchemy"@,
            Framework::Pytest => "Pytest"@,
            Framework::RubyOnRails => "Ruby on Rails"@,
            Framework::Laravel => "Laravel"@,
            Framework::Symfony => "Symfony"@,
            Framework::SpringBoot => "Spring Boot"@,
            Framework::Hibernate => "Hibernate"@,
            Framework::AspNetCore => "ASP.NET Core"@,
        }
    }

    /// The group under which the framework is listed.
    pub open spec fn group(self) -> Category {
        match self {
            Framework::React
            | Framework::Vue
            | Framework::Angular
            | Framework::Next
            | Framework::Three
            | Framework::Svelte
            | Framework::TailwindCss
            | Framework::MaterialUi
            | Framework::Bootstrap
            | Framework::ChakraUi => Category::Frontend,
            Framework::Express
            | Framework::NestJs
            | Framework::Fastify
            | Framework::Django
            | Framework::Flask
            | Framework::FastApi
            | Framework::RubyOnRails
            | Framework::Laravel
            | Framework::Symfony
            | Framework::SpringBoot
            | Framework::AspNetCore => Category::Backend,
            Framework::Jest | Framework::Cypress | Framework::Pytest => Category::Testing,
            Framework::Redux
            | Framework::MobX
            | Framework::SqlAlchemy
            | Framework::Hibernate => Category::Other,
        }
    }

    /// The name under which the framework is shown.
    pub fn name(self) -> (r: &'static str)
        ensures
            r@ == self.display_name(),
    {
        match self {
            Framework::React => "React",
            Framework::Vue => "Vue.js",
            Framework::Angular => "Angular",
            Framework::Next => "Next.js",
            Framework::Three => "Three.js",
            Framework::Svelte => "Svelte",
            Framework::TailwindCss => "Tailwind CSS",
            Framework::MaterialUi => "Material UI",
            Framework::Bootstrap => "Bootstrap",
            Framework::ChakraUi => "Chakra UI",
            Framework::Express => "Express.js",
            Framework::NestJs => "NestJS",
            Framework::Fastify => "Fastify",
            Framework::Redux => "Redux",
            Framework::MobX => "MobX",
            Framework::Jest => "Jest",
            Framework::Cypress => "Cypress",
            Framework::Django => "Django",
            Framework::Flask => "Flask",
            Framework::FastApi => "FastAPI",
            Framework::SqlAlchemy => "SQLAlchemy",
            Framework::Pytest => "Pytest",
            Framework::RubyOnRails => "Ruby on Rails",
            Framework::Laravel => "Laravel",
            Framework::Symfony => "Symfony",
            Framework::SpringBoot => "Spring Boot",
            Framework::Hibernate => "Hibernate",
            Framework::AspNetCore => "ASP.NET Core",
        }
    }

    /// The group under which the framework is listed.
    pub fn category(self) -> (r: Category)
        ensures
            r == self.group(),
    {
        match self {
            Framework::React
            | Framework::Vue
            | Framework::Angular
            | Framework::Next
            | Framework::Three
            | Framework::Svelte
            | Framework::TailwindCss
            | Framework::MaterialUi
            | Framework::Bootstrap
            | Framework::ChakraUi => Category::Frontend,
            Framework::Express
            | Framework::NestJs
            | Framework::Fastify
            | Framework::Django
            | Framework::Flask
            | Framework::FastApi
            | Framework::RubyOnRails
            | Framework::Laravel
            | Framework::Symfony
            | Framework::SpringBoot
            | Framework::AspNetCore => Category::Backend,
            Framework::Jest | Framework::Cypress | Framework::Pytest => Category::Testing,
            Framework::Redux
            | Framework::MobX
            | Framework::SqlAlchemy
            | Framework::Hibernate => Category::Other,
        }
    }
}

/// The characters of an optional string.
pub open spec fn text_of(o: Option<String>) -> Option<Seq<char>> {
    match o {
        Some(s) => Some(s@),
        None => None,
    }
}

/// The characters of the outcome of a pattern search.
pub open spec fn capture_text(r: Option<Option<String>>) -> Option<Option<Seq<char>>> {
    match r {
        Some(inner) => Some(text_of(inner)),
        None => None,
    }
}

/// What the `regex` crate finds when `pattern` is compiled with
/// `Regex::new` and searched in `text` with `Regex::captures`: `None` where
/// the pattern does not compile; `Some(None)` where it compiles but matches
/// nowhere, or matches without the capture group `group` taking part;
/// `Some(Some(t))` where `t` is what that group captured in the leftmost
/// match.
pub uninterp spec fn regex_capture(pattern: Seq<char>, text: Seq<char>, group: nat) -> Option<
    Option<Seq<char>>,
>;

/// Compiles `pattern` with `regex::Regex::new`, searches `text` with
/// `Regex::captures` and reads the group with `Captures::get`. The outcome
/// is named by [`regex_capture`]; the contract claims only that the crate's
/// answer depends on the three arguments alone.
#[verifier::external_body]
fn capture_group(pattern: &str, text: &str, group: usize) -> (r: Option<Option<String>>)
    ensures
        capture_text(r) == regex_capture(pattern@, text@, group as nat),
{
    match regex::Regex::new(pattern) {
        Ok(re) => match re.captures(text) {
            Some(caps) => match caps.get(group) {
                Some(found) => Some(Some(found.as_str().to_string())),
                None => Some(None),
            },
            None => Some(None),
        },
        Err(_) => None,
    }
}

/// The pattern that finds the version of the dependency `dep` in a package
/// manifest: the quoted name, a colon with optional blanks around it, and a
/// quoted, non-empty value, which is the capture group.
pub open spec fn version_pattern(dep: Seq<char>) -> Seq<char> {
    "\""@ + dep + "\"\\s*:\\s*\"([^\"]+)\""@
}

/// The text that the manual scan looks for: the quoted name and a colon.
pub open spec fn scan_needle(dep: Seq<char>) -> Seq<char> {
    seq!['"'] + dep + seq!['"', ':']
}

/// The manual scan. It looks at the first place where the quoted name and
/// a colon stand, and passes over the white space behind the colon. Where a
/// quote follows, the version is the text between that quote and the next,
/// unless it is empty. Where anything else follows, or nothing, there is no
/// version.
pub open spec fn scan_version(json: Seq<char>, dep: Seq<char>) -> Option<Seq<char>> {
    match first_occurrence(json, scan_needle(dep), 0) {
        None => None,
        Some(at) => {
            let open = lead_from(json, at + scan_needle(dep).len());
            if open < json.len() && json[open] == '"' {
                match first_occurrence(json, seq!['"'], open + 1) {
                    Some(close) => if open + 1 < close {
                        Some(json.subrange(open + 1, close))
                    } else {
                        None
                    },
                    None => None,
                }
            } else {
                None
            }
        },
    }
}

/// What the manual scan finds is a quoted value: it is not empty and holds
/// no quote, and it stands in the text between two quotes.
pub proof fn scan_finds_a_quoted_value(json: Seq<char>, dep: Seq<char>)
    ensures
        match scan_version(json, dep) {
            Some(v) => v.len() > 0 && (forall|i: int| 0 <= i < v.len() ==> v[i] != '"')
                && exists|open: int|
                #![trigger json[open]]
                0 <= open && open + 1 + v.len() < json.len() && json[open] == '"' && json[open + 1
                    + v.len()] == '"' && json.subrange(open + 1, open + 1 + v.len()) == v,
            None => true,
        },
{
    match first_occurrence(json, scan_needle(dep), 0) {
        None => {},
        Some(at) => {
            first_occurrence_is_first(json, scan_needle(dep), 0);
            lead_from_bounds(json, at + scan_needle(dep).len());
            let open = lead_from(json, at + scan_needle(dep).len());
            if open < json.len() && json[open] == '"' {
                first_occurrence_is_first(json, seq!['"'], open + 1);
                match first_occurrence(json, seq!['"'], open + 1) {
                    Some(close) => {
                        if open + 1 < close {
                            let v = json.subrange(open + 1, close);
                            assert(json.subrange(close, close + 1) == seq!['"']);
                            assert(json.subrange(close, close + 1)[0] == json[close]);
                            assert forall|i: int| 0 <= i < v.len() implies v[i] != '"' by {
                                let j = open + 1 + i;
                                assert(!occurs_at(json, seq!['"'], j));
                                if json[j] == '"' {
                                    assert(json.subrange(j, j + 1) =~= seq!['"']);
                                }
                            }
                            assert(json[open] == '"' && json[open + 1 + v.len()] == '"');
                        }
                    },
                    None => {},
                }
            }
        },
    }
}

/// The version that extraction settles on: what the pattern captured, and
/// what the manual scan finds where the pattern did not compile or did not
/// match.
pub open spec fn resolve_version(
    captured: Option<Option<Seq<char>>>,
    json: Seq<char>,
    dep: Seq<char>,
) -> Option<Seq<char>> {
    match captured {
        Some(Some(v)) => Some(v),
        _ => scan_version(json, dep),
    }
}

/// The version of `dep` in the manifest text `json`.
pub open spec fn extracted_version(json: Seq<char>, dep: Seq<char>) -> Option<Seq<char>> {
    resolve_version(regex_capture(version_pattern(dep), json, 1), json, dep)
}

/// The version as it is recorded: `?` where none was found.
pub open spec fn version_or_unknown(v: Option<Seq<char>>) -> Seq<char> {
    match v {
        Some(t) => t,
        None => "?"@,
    }
}

/// The manual scan for the version of `dep` in `json`.
pub fn scan_for_version(json: &[char], dep: &str) -> (r: Option<String>)
    ensures
        text_of(r) == scan_version(json@, dep@),
{
    let mut needle: Vec<char> = Vec::new();
    needle.push('"');
    let mut name = chars_of(dep);
    needle.append(&mut name);
    needle.push('"');
    needle.push(':');
    assert(needle@ == scan_needle(dep@));
    let at = match find_from(json, needle.as_slice(), 0) {
        Some(at) => at,
        None => {
            return None;
        },
    };
    let total = json.len();
    proof {
        first_occurrence_is_first(json@, needle@, 0);
        assert(occurs_at(json@, needle@, at as int));
    }
    let mut open: usize = at + needle.len();
    while open < total && is_white_space(json[open])
        invariant
            open <= total,
            total == json@.len(),
            lead_from(json@, at + needle@.len()) == lead_from(json@, open as int),
        decreases total - open,
    {
        open += 1;
    }
    if open >= total || json[open] != '"' {
        return None;
    }
    let mut quote: Vec<char> = Vec::new();
    quote.push('"');
    assert(quote@ == seq!['"']);
    match find_from(json, quote.as_slice(), open + 1) {
        Some(close) => {
            if open + 1 < close {
                let mut part: Vec<char> = Vec::new();
                let mut i: usize = open + 1;
                proof {
                    first_occurrence_is_first(json@, seq!['"'], open + 1);
                }
                while i < close
                    invariant
                        open + 1 <= i <= close <= json.len(),
                        part@ == json@.subrange(open + 1, i as int),
                    decreases close - i,
                {
                    part.push(json[i]);
                    i += 1;
                }
                Some(string_of(part.as_slice()))
            } else {
                None
            }
        },
        None => None,
    }
}

/// Settles the version of `dep` from the outcome of the pattern search and,
/// where that gave nothing, from the manual scan of `json`.
pub fn version_from_capture(captured: Option<Option<String>>, json: &str, dep: &str) -> (r:
    Option<String>)
    ensures
        text_of(r) == resolve_version(capture_text(captured), json@, dep@),
{
    match captured {
        Some(Some(v)) => Some(v),
        _ => {
            let chars = chars_of(json);
            scan_for_version(chars.as_slice(), dep)
        },
    }
}

/// The version of the dependency `dep` in the manifest text `json`: what
/// the version pattern captures, else what the manual scan finds.
pub fn extract_version(json: &str, dep: &str) -> (r: Option<String>)
    ensures
        text_of(r) == extracted_version(json@, dep@),
{
    let mut pattern = String::new();
    push_text(&mut pattern, "\"");
    push_text(&mut pattern, dep);
    push_text(&mut pattern, "\"\\s*:\\s*\"([^\"]+)\"");
    assert(pattern@ == version_pattern(dep@));
    let captured = capture_group(pattern.as_str(), json, 1);
    version_from_capture(captured, json, dep)
}

/// One detected framework with the version found for it.
pub struct Detected {
    /// The framework.
    pub framework: Framework,
    /// Its version, or `?` where none could be found.
    pub version: String,
}

/// The record of detected frameworks: each framework at most once, in the
/// order of first detection, with the version found last.
pub struct FrameworkDetection {
    frameworks: Vec<Detected>,
}

/// Whether `fw` is in the record.
pub open spec fn has_framework(s: Seq<(Framework, Seq<char>)>, fw: Framework) -> bool {
    exists|i: int| 0 <= i < s.len() && (#[trigger] s[i]).0 == fw
}

/// No framework stands twice in the record.
pub open spec fn distinct_frameworks(s: Seq<(Framework, Seq<char>)>) -> bool {
    forall|i: int, j: int| 0 <= i < j < s.len() ==> (#[trigger] s[i]).0 != (#[trigger] s[j]).0
}

/// The record after `fw` was detected with version `v`: a framework that
/// is already there keeps its place and takes the new version; a new one
/// goes to the end.
#[verifier::opaque]
pub open spec fn recorded(s: Seq<(Framework, Seq<char>)>, fw: Framework, v: Seq<char>) -> Seq<
    (Framework, Seq<char>),
> {
    if has_framework(s, fw) {
        s.update(choose|i: int| 0 <= i < s.len() && (#[trigger] s[i]).0 == fw, (fw, v))
    } else {
        s.push((fw, v))
    }
}

/// In a record without repetition, the place of a framework is the only one
/// that holds it.
pub proof fn place_is_unique(s: Seq<(Framework, Seq<char>)>, fw: Framework, i: int)
    requires
        distinct_frameworks(s),
        0 <= i < s.len(),
        s[i].0 == fw,
    ensures
        has_framework(s, fw),
        (choose|k: int| 0 <= k < s.len() && (#[trigger] s[k]).0 == fw) == i,
{
    let k = choose|k: int| 0 <= k < s.len() && (#[trigger] s[k]).0 == fw;
    assert(s[k].0 == fw);
    if k < i {
        assert(s[k].0 != s[i].0);
    }
    if i < k {
        assert(s[i].0 != s[k].0);
    }
}

/// Recording a framework keeps the record free of repetition.
pub proof fn recorded_is_distinct(s: Seq<(Framework, Seq<char>)>, fw: Framework, v: Seq<char>)
    requires
        distinct_frameworks(s),
    ensures
        distinct_frameworks(recorded(s, fw, v)),
        has_framework(recorded(s, fw, v), fw),
        version_in(recorded(s, fw, v), fw) == Some(v),
        recorded(s, fw, v).len() >= s.len(),
{
    reveal(recorded);
    let r = recorded(s, fw, v);
    if has_framework(s, fw) {
        let k = choose|k: int| 0 <= k < s.len() && (#[trigger] s[k]).0 == fw;
        assert forall|i: int, j: int| 0 <= i < j < r.len() implies (#[trigger] r[i]).0 != (
        #[trigger] r[j]).0 by {
            assert(s[i].0 != s[j].0);
        }
        assert(r[k].0 == fw);
        place_is_unique(r, fw, k);
    } else {
        assert forall|i: int, j: int| 0 <= i < j < r.len() implies (#[trigger] r[i]).0 != (
        #[trigger] r[j]).0 by {
            if j < s.len() {
                assert(s[i].0 != s[j].0);
            } else {
                assert(s[i].0 != fw);
            }
        }
        assert(r[s.len() as int].0 == fw);
        place_is_unique(r, fw, s.len() as int);
    }
}

/// The record after `fw` was detected or not.
pub open spec fn recorded_if(
    found: bool,
    s: Seq<(Framework, Seq<char>)>,
    fw: Framework,
    v: Seq<char>,
) -> Seq<(Framework, Seq<char>)> {
    if found {
        recorded(s, fw, v)
    } else {
        s
    }
}

/// The version recorded for `fw`, if it was detected.
pub open spec fn version_in(s: Seq<(Framework, Seq<char>)>, fw: Framework) -> Option<Seq<char>> {
    if has_framework(s, fw) {
        Some(s[choose|i: int| 0 <= i < s.len() && (#[trigger] s[i]).0 == fw].1)
    } else {
        None
    }
}

/// The dependency name in quotes, as it stands in a package manifest.
pub open spec fn quoted(dep: Seq<char>) -> Seq<char> {
    seq!['"'] + dep + seq!['"']
}

/// One step of detection in a package manifest: where the quoted name of
/// `dep` stands in `json`, `fw` is recorded with the version extracted for
/// `dep`.
pub open spec fn js_step(
    s: Seq<(Framework, Seq<char>)>,
    json: Seq<char>,
    fw: Framework,
    dep: Seq<char>,
) -> Seq<(Framework, Seq<char>)> {
    recorded_if(
        contains_text(json, quoted(dep)),
        s,
        fw,
        version_or_unknown(extracted_version(json, dep)),
    )
}

/// The version recorded for Material UI: that of `@mui/material`, else that
/// of `@material-ui/core`.
pub open spec fn material_version(json: Seq<char>) -> Seq<char> {
    match extracted_version(json, "@mui/material"@) {
        Some(v) => v,
        None => version_or_unknown(extracted_version(json, "@material-ui/core"@)),
    }
}

/// The record after detection in the package manifest `json`.
pub open spec fn js_detected(s: Seq<(Framework, Seq<char>)>, json: Seq<char>) -> Seq<
    (Framework, Seq<char>),
> {
    let s = js_step(s, json, Framework::React, "react"@);
    let s = js_step(s, json, Framework::Vue, "vue"@);
    let s = js_step(s, json, Framework::Angular, "@angular/core"@);
    let s = js_step(s, json, Framework::Next, "next"@);
    let s = js_step(s, json, Framework::Three, "three"@);
    let s = js_step(s, json, Framework::Svelte, "svelte"@);
    let s = js_step(s, json, Framework::TailwindCss, "tailwindcss"@);
    let s = recorded_if(
        contains_text(json, quoted("@mui/material"@)) || contains_text(
            json,
            quoted("@material-ui/core"@),
        ),
        s,
        Framework::MaterialUi,
        material_version(json),
    );
    let s = js_step(s, json, Framework::Bootstrap, "bootstrap"@);
    let s = js_step(s, json, Framework::ChakraUi, "@chakra-ui/react"@);
    let s = js_step(s, json, Framework::Express, "express"@);
    let s = js_step(s, json, Framework::NestJs, "@nestjs/core"@);
    let s = js_step(s, json, Framework::Fastify, "fastify"@);
    let s = js_step(s, json, Framework::Redux, "redux"@);
    let s = js_step(s, json, Framework::MobX, "mobx"@);
    let s = js_step(s, json, Framework::Jest, "jest"@);
    js_step(s, json, Framework::Cypress, "cypress"@)
}

/// Recording a framework leaves the versions of all others as they are.
pub proof fn recorded_keeps_others(
    s: Seq<(Framework, Seq<char>)>,
    fw: Framework,
    v: Seq<char>,
    other: Framework,
)
    requires
        distinct_frameworks(s),
        other != fw,
    ensures
        version_in(recorded(s, fw, v), other) == version_in(s, other),
{
    reveal(recorded);
    let r = recorded(s, fw, v);
    recorded_is_distinct(s, fw, v);
    if has_framework(s, other) {
        let i = choose|i: int| 0 <= i < s.len() && (#[trigger] s[i]).0 == other;
        assert(r[i] == s[i]);
        place_is_unique(s, other, i);
        place_is_unique(r, other, i);
    } else {
        if has_framework(r, other) {
            let i = choose|i: int| 0 <= i < r.len() && (#[trigger] r[i]).0 == other;
            if i < s.len() {
                assert(s[i].0 == other);
            }
        }
    }
}

/// The record is free of repetition and holds `fw` with version `v`.
#[verifier::opaque]
pub open spec fn holds_version(
    s: Seq<(Framework, Seq<char>)>,
    fw: Framework,
    v: Seq<char>,
) -> bool {
    distinct_frameworks(s) && version_in(s, fw) == Some(v)
}

/// A step of detection for one framework leaves the version of another as
/// it is and keeps the record free of repetition.
pub proof fn step_keeps_version(
    found: bool,
    s: Seq<(Framework, Seq<char>)>,
    fw: Framework,
    v: Seq<char>,
    other: Framework,
    kept: Seq<char>,
)
    requires
        holds_version(s, other, kept),
        other != fw,
    ensures
        holds_version(recorded_if(found, s, fw, v), other, kept),
{
    reveal(holds_version);
    if found {
        recorded_is_distinct(s, fw, v);
        recorded_keeps_others(s, fw, v, other);
    }
}

/// Recording a framework makes the record hold it with the version given.
pub proof fn first_step_holds(s: Seq<(Framework, Seq<char>)>, fw: Framework, v: Seq<char>)
    requires
        distinct_frameworks(s),
    ensures
        holds_version(recorded(s, fw, v), fw, v),
{
    reveal(holds_version);
    recorded_is_distinct(s, fw, v);
}

/// What it is for a record to hold a version.
pub proof fn version_is_held(s: Seq<(Framework, Seq<char>)>, fw: Framework, v: Seq<char>)
    requires
        holds_version(s, fw, v),
    ensures
        distinct_frameworks(s),
        version_in(s, fw) == Some(v),
{
    reveal(holds_version);
}

/// The record after the steps of the package manifest that follow the first,
/// given for each step whether its name was found and with which version.
pub open spec fn later_js_steps(
    s: Seq<(Framework, Seq<char>)>,
    found: Seq<bool>,
    versions: Seq<Seq<char>>,
) -> Seq<(Framework, Seq<char>)> {
    let s = recorded_if(found[0], s, Framework::Vue, versions[0]);
    let s = recorded_if(found[1], s, Framework::Angular, versions[1]);
    let s = recorded_if(found[2], s, Framework::Next, versions[2]);
    let s = recorded_if(found[3], s, Framework::Three, versions[3]);
    let s = recorded_if(found[4], s, Framework::Svelte, versions[4]);
    let s = recorded_if(found[5], s, Framework::TailwindCss, versions[5]);
    let s = recorded_if(found[6], s, Framework::MaterialUi, versions[6]);
    let s = recorded_if(found[7], s, Framework::Bootstrap, versions[7]);
    let s = recorded_if(found[8], s, Framework::ChakraUi, versions[8]);
    let s = recorded_if(found[9], s, Framework::Express, versions[9]);
    let s = recorded_if(found[10], s, Framework::NestJs, versions[10]);
    let s = recorded_if(found[11], s, Framework::Fastify, versions[11]);
    let s = recorded_if(found[12], s, Framework::Redux, versions[12]);
    let s = recorded_if(found[13], s, Framework::MobX, versions[13]);
    let s = recorded_if(found[14], s, Framework::Jest, versions[14]);
    recorded_if(found[15], s, Framework::Cypress, versions[15])
}

/// The later steps of the package manifest leave the version of React as
/// it is.
pub proof fn later_js_steps_keep_react(
    s: Seq<(Framework, Seq<char>)>,
    found: Seq<bool>,
    versions: Seq<Seq<char>>,
    v: Seq<char>,
)
    requires
        holds_version(s, Framework::React, v),
    ensures
        holds_version(later_js_steps(s, found, versions), Framework::React, v),
{
    let react = Framework::React;
    let s0 = s;
    let s1 = recorded_if(found[0], s0, Framework::Vue, versions[0]);
    step_keeps_version(found[0], s0, Framework::Vue, versions[0], react, v);
    let s2 = recorded_if(found[1], s1, Framework::Angular, versions[1]);
    step_keeps_version(found[1], s1, Framework::Angular, versions[1], react, v);
    let s3 = recorded_if(found[2], s2, Framework::Next, versions[2]);
    step_keeps_version(found[2], s2, Framework::Next, versions[2], react, v);
    let s4 = recorded_if(found[3], s3, Framework::Three, versions[3]);
    step_keeps_version(found[3], s3, Framework::Three, versions[3], react, v);
    let s5 = recorded_if(found[4], s4, Framework::Svelte, versions[4]);
    step_keeps_version(found[4], s4, Framework::Svelte, versions[4], react, v);
    let s6 = recorded_if(found[5], s5, Framework::TailwindCss, versions[5]);
    step_keeps_version(found[5], s5, Framework::TailwindCss, versions[5], react, v);
    let s7 = recorded_if(found[6], s6, Framework::MaterialUi, versions[6]);
    step_keeps_version(found[6], s6, Framework::MaterialUi, versions[6], react, v);
    let s8 = recorded_if(found[7], s7, Framework::Bootstrap, versions[7]);
    step_keeps_version(found[7], s7, Framework::Bootstrap, versions[7], react, v);
    let s9 = recorded_if(found[8], s8, Framework::ChakraUi, versions[8]);
    step_keeps_version(found[8], s8, Framework::ChakraUi, versions[8], react, v);
    let s10 = recorded_if(found[9], s9, Framework::Express, versions[9]);
    step_keeps_version(found[9], s9, Framework::Express, versions[9], react, v);
    let s11 = recorded_if(found[10], s10, Framework::NestJs, versions[10]);
    step_keeps_version(found[10], s10, Framework::NestJs, versions[10], react, v);
    let s12 = recorded_if(found[11], s11, Framework::Fastify, versions[11]);
    step_keeps_version(found[11], s11, Framework::Fastify, versions[11], react, v);
    let s13 = recorded_if(found[12], s12, Framework::Redux, versions[12]);
    step_keeps_version(found[12], s12, Framework::Redux, versions[12], react, v);
    let s14 = recorded_if(found[13], s13, Framework::MobX, versions[13]);
    step_keeps_version(found[13], s13, Framework::MobX, versions[13], react, v);
    let s15 = recorded_if(found[14], s14, Framework::Jest, versions[14]);
    step_keeps_version(found[14], s14, Framework::Jest, versions[14], react, v);
    let s16 = recorded_if(found[15], s15, Framework::Cypress, versions[15]);
    step_keeps_version(found[15], s15, Framework::Cypress, versions[15], react, v);
    assert(s16 == later_js_steps(s, found, versions));
}

/// A package manifest that names `react` in quotes makes the record hold
/// React, with the version extracted for `react`, or with `?` where none
/// was found; no later step of the detection changes that.
#[verifier::rlimit(60)]
pub proof fn react_is_recorded(s: Seq<(Framework, Seq<char>)>, json: Seq<char>)
    requires
        distinct_frameworks(s),
        contains_text(json, quoted("react"@)),
    ensures
        version_in(js_detected(s, json), Framework::React) == Some(
            version_or_unknown(extracted_version(json, "react"@)),
        ),
        distinct_frameworks(js_detected(s, json)),
{
    let v = version_or_unknown(extracted_version(json, "react"@));
    let s1 = recorded(s, Framework::React, v);
    let found = seq![
        contains_text(json, quoted("vue"@)),
        contains_text(json, quoted("@angular/core"@)),
        contains_text(json, quoted("next"@)),
        contains_text(json, quoted("three"@)),
        contains_text(json, quoted("svelte"@)),
        contains_text(json, quoted("tailwindcss"@)),
        contains_text(json, quoted("@mui/material"@)) || contains_text(
            json,
            quoted("@material-ui/core"@),
        ),
        contains_text(json, quoted("bootstrap"@)),
        contains_text(json, quoted("@chakra-ui/react"@)),
        contains_text(json, quoted("express"@)),
        contains_text(json, quoted("@nestjs/core"@)),
        contains_text(json, quoted("fastify"@)),
        contains_text(json, quoted("redux"@)),
        contains_text(json, quoted("mobx"@)),
        contains_text(json, quoted("jest"@)),
        contains_text(json, quoted("cypress"@)),
    ];
    let versions = seq![
        version_or_unknown(extracted_version(json, "vue"@)),
        version_or_unknown(extracted_version(json, "@angular/core"@)),
        version_or_unknown(extracted_version(json, "next"@)),
        version_or_unknown(extracted_version(json, "three"@)),
        version_or_unknown(extracted_version(json, "svelte"@)),
        version_or_unknown(extracted_version(json, "tailwindcss"@)),
        material_version(json),
        version_or_unknown(extracted_version(json, "bootstrap"@)),
        version_or_unknown(extracted_version(json, "@chakra-ui/react"@)),
        version_or_unknown(extracted_version(json, "express"@)),
        version_or_unknown(extracted_version(json, "@nestjs/core"@)),
        version_or_unknown(extracted_version(json, "fastify"@)),
        version_or_unknown(extracted_version(json, "redux"@)),
        version_or_unknown(extracted_version(json, "mobx"@)),
        version_or_unknown(extracted_version(json, "jest"@)),
        version_or_unknown(extracted_version(json, "cypress"@)),
    ];
    first_step_holds(s, Framework::React, v);
    later_js_steps_keep_react(s1, found, versions, v);
    assert(js_detected(s, json) == later_js_steps(s1, found, versions));
    version_is_held(js_detected(s, json), Framework::React, v);
}

/// One step of detection by a name in manifest text: where `word` stands
/// in `text`, `fw` is recorded with an unknown version.
pub open spec fn word_step(
    s: Seq<(Framework, Seq<char>)>,
    text: Seq<char>,
    fw: Framework,
    word: Seq<char>,
) -> Seq<(Framework, Seq<char>)> {
    recorded_if(contains_text(text, word), s, fw, "?"@)
}

/// The record after detection in the text of `requirements.txt`.
pub open spec fn requirements_detected(s: Seq<(Framework, Seq<char>)>, text: Seq<char>) -> Seq<
    (Framework, Seq<char>),
> {
    let s = word_step(s, text, Framework::Django, "django"@);
    let s = word_step(s, text, Framework::Flask, "flask"@);
    let s = word_step(s, text, Framework::FastApi, "fastapi"@);
    let s = word_step(s, text, Framework::SqlAlchemy, "sqlalchemy"@);
    word_step(s, text, Framework::Pytest, "pytest"@)
}

/// Whether the root has the layout of a Django project: `manage.py` beside
/// a `settings.py` at the root or in an immediate child.
pub open spec fn django_layout(root: RootFacts) -> bool {
    root.manage_py && (root.settings_py || root.nested_settings_py)
}

/// The record after Python detection at `root`.
pub open spec fn python_detected(s: Seq<(Framework, Seq<char>)>, root: RootFacts) -> Seq<
    (Framework, Seq<char>),
> {
    let s = match root.requirements_txt.text() {
        Some(text) => requirements_detected(s, text),
        None => s,
    };
    recorded_if(django_layout(root), s, Framework::Django, "?"@)
}

/// The record after Ruby detection at `root`.
pub open spec fn ruby_detected(s: Seq<(Framework, Seq<char>)>, root: RootFacts) -> Seq<
    (Framework, Seq<char>),
> {
    recorded_if(root.routes_rb, s, Framework::RubyOnRails, "?"@)
}

/// The record after PHP detection at `root`.
pub open spec fn php_detected(s: Seq<(Framework, Seq<char>)>, root: RootFacts) -> Seq<
    (Framework, Seq<char>),
> {
    let s = recorded_if(root.artisan, s, Framework::Laravel, "?"@);
    recorded_if(
        root.bin_console && root.config_dir && root.kernel_php,
        s,
        Framework::Symfony,
        "?"@,
    )
}

/// Whether the file is a C# project file that refers to ASP.NET Core.
pub open spec fn names_aspnet(file: ProjectFile) -> bool {
    extension(file.name@) == Some("csproj"@) && match file.content {
        Some(text) => contains_text(text@, "Microsoft.AspNetCore"@),
        None => false,
    }
}

/// Whether one of the files is a C# project file that refers to ASP.NET
/// Core.
pub open spec fn aspnet_found(files: Seq<ProjectFile>) -> bool {
    exists|i: int| 0 <= i < files.len() && names_aspnet(#[trigger] files[i])
}

/// The record after .NET detection at `root`.
pub open spec fn dotnet_detected(s: Seq<(Framework, Seq<char>)>, root: RootFacts) -> Seq<
    (Framework, Seq<char>),
> {
    recorded_if(aspnet_found(root.project_files@), s, Framework::AspNetCore, "?"@)
}

/// The line that lists one framework.
pub open spec fn entry_line(fw: Framework, version: Seq<char>) -> Seq<char> {
    "    - "@ + fw.display_name() + " (v"@ + version + ")\n"@
}

/// The lines of the frameworks of group `cat`, in the order of the record.
pub open spec fn group_lines(s: Seq<(Framework, Seq<char>)>, cat: Category) -> Seq<char>
    decreases s.len(),
{
    if s.len() == 0 {
        Seq::empty()
    } else if s.last().0.group() == cat {
        group_lines(s.drop_last(), cat) + entry_line(s.last().0, s.last().1)
    } else {
        group_lines(s.drop_last(), cat)
    }
}

/// The listing of group `cat`: a heading and the group's lines, or nothing
/// where the group is empty.
pub open spec fn group_text(s: Seq<(Framework, Seq<char>)>, cat: Category) -> Seq<char> {
    if group_lines(s, cat).len() == 0 {
        Seq::empty()
    } else {
        "  "@ + cat.label() + " Frameworks:\n"@ + group_lines(s, cat)
    }
}

/// The listing of all detected frameworks, group by group.
pub open spec fn frameworks_text(s: Seq<(Framework, Seq<char>)>) -> Seq<char> {
    if s.len() == 0 {
        "No specific frameworks detected\n"@
    } else {
        "Detected Frameworks:\n"@ + group_text(s, Category::Frontend) + group_text(
            s,
            Category::Backend,
        ) + group_text(s, Category::Testing) + group_text(s, Category::Other)
    }
}

/// The record after Java detection in the text of `pom.xml`, if there is
/// one.
pub open spec fn java_detected(s: Seq<(Framework, Seq<char>)>, pom_xml: Option<Seq<char>>) -> Seq<
    (Framework, Seq<char>),
> {
    match pom_xml {
        Some(text) => {
            let s = word_step(s, text, Framework::SpringBoot, "spring-boot"@);
            word_step(s, text, Framework::Hibernate, "hibernate"@)
        },
        None => s,
    }
}

impl View for FrameworkDetection {
    type V = Seq<(Framework, Seq<char>)>;

    closed spec fn view(&self) -> Seq<(Framework, Seq<char>)> {
        Seq::new(
            self.frameworks@.len(),
            |i: int| (self.frameworks@[i].framework, self.frameworks@[i].version@),
        )
    }
}

impl FrameworkDetection {
    /// No framework stands twice in the record.
    pub open spec fn wf(&self) -> bool {
        distinct_frameworks(self@)
    }

    /// An empty record.
    pub fn new() -> (r: Self)
        ensures
            r@.len() == 0,
            r.wf(),
    {
        FrameworkDetection { frameworks: Vec::new() }
    }

    /// Whether nothing was detected.
    pub fn is_empty(&self) -> (r: bool)
        ensures
            r == (self@.len() == 0),
    {
        self.frameworks.len() == 0
    }

    /// The number of detected frameworks.
    pub fn len(&self) -> (r: usize)
        ensures
            r == self@.len(),
    {
        self.frameworks.len()
    }

    /// The framework at place `i` of the record.
    pub fn framework_at(&self, i: usize) -> (r: Framework)
        requires
            i < self@.len(),
        ensures
            r == self@[i as int].0,
    {
        self.frameworks[i].framework
    }

    /// The version at place `i` of the record.
    pub fn version_at(&self, i: usize) -> (r: &str)
        requires
            i < self@.len(),
        ensures
            r@ == self@[i as int].1,
    {
        self.frameworks[i].version.as_str()
    }

    /// The version recorded for `fw`, if it was detected.
    pub fn version_of(&self, fw: Framework) -> (r: Option<String>)
        requires
            self.wf(),
        ensures
            text_of(r) == version_in(self@, fw),
    {
        let mut i: usize = 0;
        while i < self.frameworks.len()
            invariant
                i <= self.frameworks.len(),
                self.wf(),
                forall|j: int| 0 <= j < i ==> (#[trigger] self@[j]).0 != fw,
            decreases self.frameworks.len() - i,
        {
            if self.frameworks[i].framework == fw {
                proof {
                    place_is_unique(self@, fw, i as int);
                }
                return Some(self.frameworks[i].version.clone());
            }
            i += 1;
        }
        None
    }

    /// Records `fw` with `version`.
    pub fn insert(&mut self, fw: Framework, version: String)
        requires
            old(self).wf(),
        ensures
            final(self).wf(),
            final(self)@ == recorded(old(self)@, fw, version@),
    {
        let mut i: usize = 0;
        while i < self.frameworks.len()
            invariant
                i <= self.frameworks.len(),
                *self == *old(self),
                self.wf(),
                forall|j: int| 0 <= j < i ==> (#[trigger] self@[j]).0 != fw,
            decreases self.frameworks.len() - i,
        {
            if self.frameworks[i].framework == fw {
                proof {
                    reveal(recorded);
                    place_is_unique(self@, fw, i as int);
                    recorded_is_distinct(self@, fw, version@);
                }
                self.frameworks.set(i, Detected { framework: fw, version });
                assert(self@ == old(self)@.update(i as int, (fw, version@)));
                return;
            }
            i += 1;
        }
        proof {
            reveal(recorded);
            recorded_is_distinct(self@, fw, version@);
        }
        self.frameworks.push(Detected { framework: fw, version });
        assert(self@ == old(self)@.push((fw, version@)));
    }
}

/// Whether the quoted name of `dep` stands in `json`.
fn contains_quoted(json: &[char], dep: &str) -> (r: bool)
    ensures
        r == contains_text(json@, quoted(dep@)),
{
    let mut needle: Vec<char> = Vec::new();
    needle.push('"');
    let mut name = chars_of(dep);
    needle.append(&mut name);
    needle.push('"');
    assert(needle@ == quoted(dep@));
    contains(json, needle.as_slice())
}

/// The string `?`, which stands for an unknown version.
fn unknown_version() -> (v: String)
    ensures
        v@ == "?"@,
{
    let mut v = String::new();
    push_text(&mut v, "?");
    v
}

impl FrameworkDetection {
    /// Records `fw` if the quoted name of `dep` stands in the manifest.
    fn detect_dependency(&mut self, json: &str, chars: &[char], fw: Framework, dep: &str)
        requires
            old(self).wf(),
            chars@ == json@,
        ensures
            final(self).wf(),
            final(self)@ == js_step(old(self)@, json@, fw, dep@),
    {
        if contains_quoted(chars, dep) {
            let version = match extract_version(json, dep) {
                Some(v) => v,
                None => unknown_version(),
            };
            self.insert(fw, version);
        }
    }

    /// Records `fw` if `word` stands in the text.
    fn detect_word(&mut self, text: &[char], fw: Framework, word: &str)
        requires
            old(self).wf(),
        ensures
            final(self).wf(),
            final(self)@ == word_step(old(self)@, text@, fw, word@),
    {
        if contains_str(text, word) {
            self.insert(fw, unknown_version());
        }
    }

    /// Detects the frameworks that the package manifest `package_json`
    /// names, each with the version extracted for it.
    pub fn detect_js_frameworks(&mut self, _root: &RootFacts, package_json: &str)
        requires
            old(self).wf(),
        ensures
            final(self).wf(),
            final(self)@ == js_detected(old(self)@, package_json@),
    {
        let text = chars_of(package_json);
        let chars = text.as_slice();
        self.detect_dependency(package_json, chars, Framework::React, "react");
        self.detect_dependency(package_json, chars, Framework::Vue, "vue");
        self.detect_dependency(package_json, chars, Framework::Angular, "@angular/core");
        self.detect_dependency(package_json, chars, Framework::Next, "next");
        self.detect_dependency(package_json, chars, Framework::Three, "three");
        self.detect_dependency(package_json, chars, Framework::Svelte, "svelte");
        self.detect_dependency(package_json, chars, Framework::TailwindCss, "tailwindcss");
        if contains_quoted(chars, "@mui/material") || contains_quoted(chars, "@material-ui/core") {
            let version = match extract_version(package_json, "@mui/material") {
                Some(v) => v,
                None => match extract_version(package_json, "@material-ui/core") {
                    Some(v) => v,
                    None => unknown_version(),
                },
            };
            self.insert(Framework::MaterialUi, version);
        }
        self.detect_dependency(package_json, chars, Framework::Bootstrap, "bootstrap");
        self.detect_dependency(package_json, chars, Framework::ChakraUi, "@chakra-ui/react");
        self.detect_dependency(package_json, chars, Framework::Express, "express");
        self.detect_dependency(package_json, chars, Framework::NestJs, "@nestjs/core");
        self.detect_dependency(package_json, chars, Framework::Fastify, "fastify");
        self.detect_dependency(package_json, chars, Framework::Redux, "redux");
        self.detect_dependency(package_json, chars, Framework::MobX, "mobx");
        self.detect_dependency(package_json, chars, Framework::Jest, "jest");
        self.detect_dependency(package_json, chars, Framework::Cypress, "cypress");
    }

    /// Detects Python frameworks: by their names in `requirements.txt`
    /// where it could be read, and Django also by the layout of the root.
    pub fn detect_python_frameworks(&mut self, root: &RootFacts)
        requires
            old(self).wf(),
        ensures
            final(self).wf(),
            final(self)@ == python_detected(old(self)@, *root),
    {
        match &root.requirements_txt {
            Manifest::Text(content) => {
                let text = chars_of(content.as_str());
                let chars = text.as_slice();
                self.detect_word(chars, Framework::Django, "django");
                self.detect_word(chars, Framework::Flask, "flask");
                self.detect_word(chars, Framework::FastApi, "fastapi");
                self.detect_word(chars, Framework::SqlAlchemy, "sqlalchemy");
                self.detect_word(chars, Framework::Pytest, "pytest");
            },
            _ => {},
        }
        if root.manage_py && (root.settings_py || root.nested_settings_py) {
            self.insert(Framework::Django, unknown_version());
        }
    }

    /// Detects Ruby on Rails by its routes file.
    pub fn detect_ruby_frameworks(&mut self, root: &RootFacts)
        requires
            old(self).wf(),
        ensures
            final(self).wf(),
            final(self)@ == ruby_detected(old(self)@, *root),
    {
        if root.routes_rb {
            self.insert(Framework::RubyOnRails, unknown_version());
        }
    }

    /// Detects Laravel by its `artisan` file, and Symfony by its console,
    /// its `config` directory and its kernel together.
    pub fn detect_php_frameworks(&mut self, root: &RootFacts)
        requires
            old(self).wf(),
        ensures
            final(self).wf(),
            final(self)@ == php_detected(old(self)@, *root),
    {
        if root.artisan {
            self.insert(Framework::Laravel, unknown_version());
        }
        if root.bin_console && root.config_dir && root.kernel_php {
            self.insert(Framework::Symfony, unknown_version());
        }
    }

    /// Detects Spring Boot and Hibernate by their names in the text of
    /// `pom.xml`; without that text nothing is detected.
    pub fn detect_java_frameworks(&mut self, _root: &RootFacts, pom_xml: Option<&str>)
        requires
            old(self).wf(),
        ensures
            final(self).wf(),
            final(self)@ == java_detected(
                old(self)@,
                match pom_xml {
                    Some(t) => Some(t@),
                    None => None,
                },
            ),
    {
        if let Some(content) = pom_xml {
            let text = chars_of(content);
            let chars = text.as_slice();
            self.detect_word(chars, Framework::SpringBoot, "spring-boot");
            self.detect_word(chars, Framework::Hibernate, "hibernate");
        }
    }

    /// Detects ASP.NET Core: some C# project file among the files found
    /// below the root refers to it.
    pub fn detect_dotnet_frameworks(&mut self, root: &RootFacts)
        requires
            old(self).wf(),
        ensures
            final(self).wf(),
            final(self)@ == dotnet_detected(old(self)@, *root),
    {
        let files = &root.project_files;
        let mut i: usize = 0;
        while i < files.len()
            invariant
                i <= files.len(),
                files == &root.project_files,
                *self == *old(self),
                self.wf(),
                forall|j: int| 0 <= j < i ==> !names_aspnet(#[trigger] files@[j]),
            decreases files.len() - i,
        {
            if is_aspnet_project(&files[i]) {
                self.insert(Framework::AspNetCore, unknown_version());
                return;
            }
            i += 1;
        }
    }

    /// Appends the listing of the group `cat`.
    fn push_group(&self, out: &mut String, cat: Category)
        ensures
            final(out)@ == old(out)@ + group_text(self@, cat),
    {
        let mut lines = String::new();
        let mut i: usize = 0;
        assert(self@.take(0) == Seq::<(Framework, Seq<char>)>::empty());
        while i < self.frameworks.len()
            invariant
                i <= self.frameworks.len(),
                lines@ == group_lines(self@.take(i as int), cat),
            decreases self.frameworks.len() - i,
        {
            let fw = self.frameworks[i].framework;
            assert(self@.take(i + 1).drop_last() == self@.take(i as int));
            assert(self@.take(i + 1).last() == self@[i as int]);
            if fw.category() == cat {
                push_text(&mut lines, "    - ");
                push_text(&mut lines, fw.name());
                push_text(&mut lines, " (v");
                push_text(&mut lines, self.frameworks[i].version.as_str());
                push_text(&mut lines, ")\n");
            }
            i += 1;
        }
        assert(self@.take(self@.len() as int) == self@);
        if !lines.as_str().is_empty() {
            push_text(out, "  ");
            push_text(out, cat.name());
            push_text(out, " Frameworks:\n");
            push_text(out, lines.as_str());
        }
    }

    /// The listing of the detected frameworks, group by group: frontend,
    /// backend, testing, other. Within a group the frameworks stand in the
    /// order of their first detection.
    pub fn format_frameworks(&self) -> (r: String)
        ensures
            r@ == frameworks_text(self@),
    {
        let mut out = String::new();
        if self.frameworks.len() == 0 {
            push_text(&mut out, "No specific frameworks detected\n");
            return out;
        }
        push_text(&mut out, "Detected Frameworks:\n");
        self.push_group(&mut out, Category::Frontend);
        self.push_group(&mut out, Category::Backend);
        self.push_group(&mut out, Category::Testing);
        self.push_group(&mut out, Category::Other);
        out
    }
}

/// Whether a file of this name is a C# project file: its extension is
/// `csproj`.
pub fn is_csharp_project(name: &str) -> (r: bool)
    ensures
        r == (extension(name@) == Some("csproj"@)),
{
    let chars = chars_of(name);
    match extension_of(chars.as_slice()) {
        Some(ext) => is_text(ext.as_slice(), "csproj"),
        None => false,
    }
}

/// Whether the file is a C# project file that refers to ASP.NET Core.
fn is_aspnet_project(file: &ProjectFile) -> (r: bool)
    ensures
        r == names_aspnet(*file),
{
    if is_csharp_project(file.name.as_str()) {
        match &file.content {
            Some(text) => {
                let chars = chars_of(text.as_str());
                contains_str(chars.as_slice(), "Microsoft.AspNetCore")
            },
            None => false,
        }
    } else {
        false
    }
}

} // verus!
