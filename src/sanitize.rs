//! The sanitizer's allow-list: which tags, attributes, attribute values and
//! classes survive in a page's HTML.
use vstd::prelude::*;
use crate::text::strings_view;

verus! {

/// An allow-list for the HTML sanitizer, on top of its default one.
pub struct SanitizePolicy {
    /// Tags kept.
    pub tags: Vec<String>,
    /// Per tag, the attributes kept.
    pub tag_attributes: Vec<(String, Vec<String>)>,
    /// Per tag and attribute, the only values kept.
    pub attribute_values: Vec<(String, String, Vec<String>)>,
    /// Per tag, the class tokens kept; other classes are dropped.
    pub classes: Vec<(String, Vec<String>)>,
    /// Tags removed together with everything inside them.
    pub clean_content_tags: Vec<String>,
}

pub ghost struct SanitizePolicyV {
    pub tags: Seq<Seq<char>>,
    pub tag_attributes: Seq<(Seq<char>, Seq<Seq<char>>)>,
    pub attribute_values: Seq<(Seq<char>, Seq<char>, Seq<Seq<char>>)>,
    pub classes: Seq<(Seq<char>, Seq<Seq<char>>)>,
    pub clean_content_tags: Seq<Seq<char>>,
}

impl View for SanitizePolicy {
    type V = SanitizePolicyV;

    open spec fn view(&self) -> SanitizePolicyV {
        SanitizePolicyV {
            tags: strings_view(self.tags@),
            tag_attributes: self.tag_attributes@.map_values(
                |p: (String, Vec<String>)| (p.0@, strings_view(p.1@)),
            ),
            attribute_values: self.attribute_values@.map_values(
                |p: (String, String, Vec<String>)| (p.0@, p.1@, strings_view(p.2@)),
            ),
            classes: self.classes@.map_values(|p: (String, Vec<String>)| (p.0@, strings_view(p.1@))),
            clean_content_tags: strings_view(self.clean_content_tags@),
        }
    }
}

/// The site's policy: headings keep an `id`; `code` and `p` a `class`;
/// checkboxes are the only inputs, with empty `disabled` and `checked`;
/// `div`, `label` and `ul` keep only the classes of callouts, diagrams,
/// math, tab groups and checklists; tab strips keep their `role`s, labels
/// their `id`, panels their tab data; forms, scripts and styles go with
/// their content.
pub open spec fn site_policy() -> SanitizePolicyV {
    SanitizePolicyV {
        tags: seq!["h1"@, "h2"@, "h3"@, "h4"@, "h5"@, "h6"@, "code"@, "p"@, "input"@, "label"@],
        tag_attributes: seq![
            ("h1"@, seq!["id"@]),
            ("h2"@, seq!["id"@]),
            ("h3"@, seq!["id"@]),
            ("h4"@, seq!["id"@]),
            ("h5"@, seq!["id"@]),
            ("h6"@, seq!["id"@]),
            ("code"@, seq!["class"@]),
            ("p"@, seq!["class"@]),
            ("label"@, seq!["id"@, "role"@]),
            ("div"@, seq!["id"@, "data-tab-title"@, "data-tab-id"@]),
            ("ul"@, seq!["role"@]),
            ("li"@, seq!["role"@]),
        ],
        attribute_values: seq![
            ("input"@, "disabled"@, seq![""@]),
            ("input"@, "type"@, seq!["checkbox"@]),
            ("input"@, "checked"@, seq![""@]),
        ],
        classes: seq![
            ("div"@, div_classes()),
            ("label"@, seq!["active"@]),
            ("ul"@, seq!["checklist"@, "tab-list"@]),
        ],
        clean_content_tags: seq!["form"@, "script"@, "style"@],
    }
}

pub open spec fn div_classes() -> Seq<Seq<char>> {
    seq![
        "mermaid"@,
        "math"@,
        "callout"@,
        "callout-title"@,
        "callout-content"@,
        "info"@,
        "success"@,
        "warning"@,
        "error"@,
        "tabgroup"@,
        "tab"@,
        "tab-panel"@,
        "active"@,
    ]
}

fn push_string(v: &mut Vec<String>, s: &str)
    ensures
        strings_view(final(v)@) == strings_view(old(v)@).push(s@),
{
    let ghost before = strings_view(v@);
    v.push(s.to_string());
    assert(strings_view(v@) =~= before.push(s@));
}

fn list(items: &[&str]) -> (r: Vec<String>)
    ensures
        strings_view(r@) == items@.map_values(|s: &str| s@),
{
    let mut r: Vec<String> = Vec::new();
    let mut i: usize = 0;
    while i < items.len()
        invariant
            i <= items@.len(),
            strings_view(r@) == items@.subrange(0, i as int).map_values(|s: &str| s@),
        decreases items@.len() - i,
    {
        push_string(&mut r, items[i]);
        assert(items@.subrange(0, i + 1).map_values(|s: &str| s@) =~= items@.subrange(
            0,
            i as int,
        ).map_values(|s: &str| s@).push(items@[i as int]@));
        i = i + 1;
    }
    assert(items@.subrange(0, items@.len() as int) =~= items@);
    r
}

impl SanitizePolicy {
    /// The site's policy.
    pub fn site() -> (r: SanitizePolicy)
        ensures
            r@ == site_policy(),
    {
        let tags = list(&["h1", "h2", "h3", "h4", "h5", "h6", "code", "p", "input", "label"]);
        let mut tag_attributes: Vec<(String, Vec<String>)> = Vec::new();
        tag_attributes.push(("h1".to_string(), list(&["id"])));
        tag_attributes.push(("h2".to_string(), list(&["id"])));
        tag_attributes.push(("h3".to_string(), list(&["id"])));
        tag_attributes.push(("h4".to_string(), list(&["id"])));
        tag_attributes.push(("h5".to_string(), list(&["id"])));
        tag_attributes.push(("h6".to_string(), list(&["id"])));
        tag_attributes.push(("code".to_string(), list(&["class"])));
        tag_attributes.push(("p".to_string(), list(&["class"])));
        tag_attributes.push(("label".to_string(), list(&["id", "role"])));
        tag_attributes.push(("div".to_string(), list(&["id", "data-tab-title", "data-tab-id"])));
        tag_attributes.push(("ul".to_string(), list(&["role"])));
        tag_attributes.push(("li".to_string(), list(&["role"])));
        let mut attribute_values: Vec<(String, String, Vec<String>)> = Vec::new();
        attribute_values.push(("input".to_string(), "disabled".to_string(), list(&[""])));
        attribute_values.push(("input".to_string(), "type".to_string(), list(&["checkbox"])));
        attribute_values.push(("input".to_string(), "checked".to_string(), list(&[""])));
        let mut classes: Vec<(String, Vec<String>)> = Vec::new();
        classes.push(
            (
                "div".to_string(),
                list(
                    &[
                        "mermaid",
                        "math",
                        "callout",
                        "callout-title",
                        "callout-content",
                        "info",
                        "success",
                        "warning",
                        "error",
                        "tabgroup",
                        "tab",
                        "tab-panel",
                        "active",
                    ],
                ),
            ),
        );
        classes.push(("label".to_string(), list(&["active"])));
        classes.push(("ul".to_string(), list(&["checklist", "tab-list"])));
        let clean_content_tags = list(&["form", "script", "style"]);
        let r = SanitizePolicy { tags, tag_attributes, attribute_values, classes, clean_content_tags };
        assert(r@.tags =~= site_policy().tags);
        assert(r@.tag_attributes =~~= site_policy().tag_attributes);
        assert(r@.attribute_values =~~= site_policy().attribute_values);
        assert(r@.classes =~~= site_policy().classes);
        assert(r@.clean_content_tags =~= site_policy().clean_content_tags);
        r
    }
}

/// The HTML that the sanitizer, under the site's policy, makes of `html`.
pub uninterp spec fn sanitized(html: Seq<char>) -> Seq<char>;

/// A lone `script` element whose body holds no `<`.
pub open spec fn is_lone_script(html: Seq<char>) -> bool {
    exists|body: Seq<char>|
        #![trigger "<script>"@ + body + "</script>"@]
        html == "<script>"@ + body + "</script>"@ && !body.contains('<')
}

/// Relies on `ammonia::Builder`: starting from its default allow-list, with
/// no `rel` added to links, the policy's tags, attributes, attribute values,
/// classes and content-removing tags are added and `clean` is run. The site
/// policy trips none of the builder's consistency assertions (no class
/// allow-list on a tag that keeps `class`, neither by default nor by the
/// policy; no content-removing tag among the kept ones or among those with
/// attributes). The result depends on the HTML alone. A `script` element is
/// removed with its content, so a lone one leaves nothing.
#[verifier::external_body]
fn clean_html(policy: &SanitizePolicy, html: &str) -> (r: String)
    requires
        policy@ == site_policy(),
    ensures
        r@ == sanitized(html@),
        is_lone_script(html@) ==> r@.len() == 0,
{
    let mut b = ammonia::Builder::new();
    b.link_rel(None).add_tags(policy.tags.iter());
    for (tag, attrs) in &policy.tag_attributes {
        b.add_tag_attributes(tag, attrs.iter());
    }
    for (tag, attr, values) in &policy.attribute_values {
        b.add_tag_attribute_values(tag, attr, values.iter());
    }
    for (tag, names) in &policy.classes {
        b.add_allowed_classes(tag, names.iter());
    }
    b.add_clean_content_tags(policy.clean_content_tags.iter());
    b.clean(html).to_string()
}

/// Sanitizes a page's HTML under the site's policy; a lone `script`
/// element sanitizes to nothing.
pub fn sanitize(html: &str) -> (r: String)
    ensures
        r@ == sanitized(html@),
        is_lone_script(html@) ==> r@.len() == 0,
{
    let policy = SanitizePolicy::site();
    clean_html(&policy, html)
}

} // verus!
