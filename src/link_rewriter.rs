//! Link rewriting: new roots for site paths, explicit substitutions, query
//! parameters for local links, and the collection of the page's links.
use vstd::prelude::*;
use crate::event::{Event, EventV, LinkType, Tag, TagV, events_view};
use crate::output::{Link, LinkV, Output, OutputV, StepV, UrlType, UrlTypeV, outputs_view, pass, step_of};
use crate::text::{concat, has_prefix, push_str, starts_with, str_eq, trim_end_char, trim_end_matches};

verus! {

/// What parsing a string as an absolute URL gives.
#[derive(Debug, Clone, PartialEq)]
pub enum UrlParse {
    /// An absolute URL: its normalised serialisation, and whether it has a host.
    Absolute { serialization: String, has_host: bool },
    /// A scheme that needs a host, without one.
    EmptyHost,
    /// No scheme: a relative reference.
    RelativeWithoutBase,
    /// Any other parse error.
    Invalid,
}

pub ghost enum UrlParseV {
    Absolute { serialization: Seq<char>, has_host: bool },
    EmptyHost,
    RelativeWithoutBase,
    Invalid,
}

impl View for UrlParse {
    type V = UrlParseV;

    open spec fn view(&self) -> UrlParseV {
        match self {
            UrlParse::Absolute { serialization, has_host } => UrlParseV::Absolute {
                serialization: serialization@,
                has_host: *has_host,
            },
            UrlParse::EmptyHost => UrlParseV::EmptyHost,
            UrlParse::RelativeWithoutBase => UrlParseV::RelativeWithoutBase,
            UrlParse::Invalid => UrlParseV::Invalid,
        }
    }
}

/// What the URL parser makes of a string.
pub uninterp spec fn url_outcome(s: Seq<char>) -> UrlParseV;

/// Relies on `url::Url::parse`, `Url::host` and `Url::as_str`: the parse
/// outcome of a string, which depends on the string alone.
#[verifier::external_body]
fn parse_url(s: &str) -> (r: UrlParse)
    ensures
        r@ == url_outcome(s@),
{
    match url::Url::parse(s) {
        Ok(u) => UrlParse::Absolute {
            has_host: u.host().is_some(),
            serialization: u.as_str().to_string(),
        },
        Err(url::ParseError::EmptyHost) => UrlParse::EmptyHost,
        Err(url::ParseError::RelativeUrlWithoutBase) => UrlParse::RelativeWithoutBase,
        Err(_) => UrlParse::Invalid,
    }
}

/// Whether a URL with this parse outcome points into the site itself.
pub open spec fn local_outcome(o: UrlParseV) -> bool {
    match o {
        UrlParseV::Absolute { has_host, .. } => !has_host,
        UrlParseV::EmptyHost => true,
        UrlParseV::RelativeWithoutBase => true,
        UrlParseV::Invalid => false,
    }
}

pub open spec fn in_local_domain(url: Seq<char>) -> bool {
    local_outcome(url_outcome(url))
}

/// Whether `url` points into the site: it parses without a host, or does
/// not parse for want of a host or of a base.
pub fn is_in_local_domain(url: &str) -> (r: bool)
    ensures
        r == in_local_domain(url@),
{
    match parse_url(url) {
        UrlParse::Absolute { has_host, .. } => !has_host,
        UrlParse::EmptyHost => true,
        UrlParse::RelativeWithoutBase => true,
        UrlParse::Invalid => false,
    }
}

/// The target that a collected link gets for a URL with this parse outcome.
pub open spec fn target_of(o: UrlParseV, url: Seq<char>) -> Option<UrlTypeV> {
    match o {
        UrlParseV::Absolute { serialization, .. } => Some(UrlTypeV::Remote(serialization)),
        UrlParseV::EmptyHost => Some(UrlTypeV::Local(url)),
        UrlParseV::RelativeWithoutBase => Some(UrlTypeV::Local(url)),
        UrlParseV::Invalid => None,
    }
}

pub open spec fn url_type_option_view(t: Option<UrlType>) -> Option<UrlTypeV> {
    match t {
        Some(x) => Some(x@),
        None => None,
    }
}

/// Classifies a link's URL: remote when it parses as an absolute URL, local
/// when it lacks a host or a base, and none on any other parse error.
pub fn classify_url(url: &str) -> (r: Option<UrlType>)
    ensures
        url_type_option_view(r) == target_of(url_outcome(url@), url@),
{
    match parse_url(url) {
        UrlParse::Absolute { serialization, .. } => Some(UrlType::Remote(serialization)),
        UrlParse::EmptyHost => Some(UrlType::Local(url.to_string())),
        UrlParse::RelativeWithoutBase => Some(UrlType::Local(url.to_string())),
        UrlParse::Invalid => None,
    }
}

pub open spec fn pairs_view(v: Seq<(String, String)>) -> Seq<(Seq<char>, Seq<char>)> {
    v.map_values(|p: (String, String)| (p.0@, p.1@))
}

/// The substitution that the first rule for `url` gives, if any.
pub open spec fn rule_for(rules: Seq<(Seq<char>, Seq<char>)>, url: Seq<char>) -> Option<Seq<char>>
    decreases rules.len(),
{
    if rules.len() == 0 {
        None
    } else if rules[0].0 == url {
        Some(rules[0].1)
    } else {
        rule_for(rules.drop_first(), url)
    }
}

/// A URL after rewriting: an explicit substitution if a rule names it,
/// else a site path under the new root, else the URL as it is.
pub open spec fn rewritten(root: Seq<char>, rules: Seq<(Seq<char>, Seq<char>)>, url: Seq<char>) -> Seq<char> {
    match rule_for(rules, url) {
        Some(to) => to,
        None => if has_prefix(url, "/"@) {
            trim_end_char(root, '/') + url
        } else {
            url
        },
    }
}

/// `key=value` pairs joined by `&`.
pub open spec fn query_of(params: Seq<(Seq<char>, Seq<char>)>) -> Seq<char>
    decreases params.len(),
{
    if params.len() == 0 {
        seq![]
    } else {
        let p = params.last();
        let kv = p.0 + "="@ + p.1;
        if params.len() == 1 {
            kv
        } else {
            query_of(params.drop_last()) + "&"@ + kv
        }
    }
}

/// The URL that a link or an image ends up with: rewritten, then given the
/// query parameters if there are any and it points into the site.
pub open spec fn link_url(
    root: Seq<char>,
    rules: Seq<(Seq<char>, Seq<char>)>,
    params: Seq<(Seq<char>, Seq<char>)>,
    url: Seq<char>,
) -> Seq<char> {
    let r = rewritten(root, rules, url);
    if params.len() > 0 && in_local_domain(r) {
        r + "?"@ + query_of(params)
    } else {
        r
    }
}

/// Appends `?key=value&...` to `url`, in the order of `url_params`.
pub fn append_parameters(url: String, url_params: &Vec<(String, String)>) -> (r: String)
    ensures
        r@ == url@ + "?"@ + query_of(pairs_view(url_params@)),
{
    let ghost pv = pairs_view(url_params@);
    let mut appended = url;
    push_str(&mut appended, "?");
    let ghost base = appended@;
    let mut i: usize = 0;
    while i < url_params.len()
        invariant
            pv == pairs_view(url_params@),
            i <= url_params@.len(),
            appended@ == base + query_of(pv.subrange(0, i as int)),
        decreases url_params@.len() - i,
    {
        let ghost ps = pv.subrange(0, i + 1);
        assert(ps.drop_last() =~= pv.subrange(0, i as int));
        if i > 0 {
            push_str(&mut appended, "&");
        } else {
            assert(pv.subrange(0, i as int) =~= Seq::<(Seq<char>, Seq<char>)>::empty());
        }
        push_str(&mut appended, url_params[i].0.as_str());
        push_str(&mut appended, "=");
        push_str(&mut appended, url_params[i].1.as_str());
        i = i + 1;
    }
    assert(pv.subrange(0, url_params@.len() as int) =~= pv);
    appended
}

/// The link-rewriting extension and its state.
pub struct LinkRewriter {
    pub url_root: String,
    /// Substitutions, looked up by exact URL; the first rule for a URL wins.
    pub link_rewrite_rules: Vec<(String, String)>,
    /// Query parameters for links into the site, in order.
    pub url_params: Vec<(String, String)>,
    /// The inline link being read, if any.
    pub current_link: Option<Link>,
}

pub open spec fn link_option_view(l: Option<Link>) -> Option<LinkV> {
    match l {
        Some(x) => Some(x@),
        None => None,
    }
}

pub ghost struct LinkRewriterV {
    pub root: Seq<char>,
    pub rules: Seq<(Seq<char>, Seq<char>)>,
    pub params: Seq<(Seq<char>, Seq<char>)>,
    pub current: Option<LinkV>,
}

impl View for LinkRewriter {
    type V = LinkRewriterV;

    open spec fn view(&self) -> LinkRewriterV {
        LinkRewriterV {
            root: self.url_root@,
            rules: pairs_view(self.link_rewrite_rules@),
            params: pairs_view(self.url_params@),
            current: link_option_view(self.current_link),
        }
    }
}

/// The state of the link-rewriting extension and what it does with one event:
/// - an image's source is rewritten and given the query parameters as a
///   link's destination is;
/// - a link's destination is rewritten and given the query parameters, and
///   an inline link with a valid URL starts being collected, its title
///   attribute starting its title;
/// - text inside a collected link is added to its title;
/// - the end of a link hands the collected link over.
pub open spec fn links_step(st: LinkRewriterV, s: Seq<EventV>, e: EventV) -> (LinkRewriterV, StepV) {
    match e {
        EventV::Start(TagV::Image(lt, url, title)) => (
            st,
            StepV {
                events: s,
                out: Some(
                    seq![OutputV::Event(EventV::Start(TagV::Image(lt, link_url(st.root, st.rules, st.params, url), title)))],
                ),
                handled: true,
            },
        ),
        EventV::Start(TagV::Link(lt, url, title)) => {
            let u = link_url(st.root, st.rules, st.params, url);
            let target = target_of(url_outcome(u), u);
            (
                LinkRewriterV {
                    current: if lt == LinkType::Inline && target is Some {
                        Some(LinkV { title, url: target->0 })
                    } else {
                        st.current
                    },
                    ..st
                },
                StepV {
                    events: s,
                    out: Some(seq![OutputV::Event(EventV::Start(TagV::Link(lt, u, title)))]),
                    handled: true,
                },
            )
        },
        EventV::End(TagV::Link(..)) => (
            LinkRewriterV { current: None, ..st },
            StepV {
                events: s,
                out: Some(
                    match st.current {
                        Some(l) => seq![OutputV::Link(l)],
                        None => seq![],
                    } + seq![OutputV::Event(e)],
                ),
                handled: true,
            },
        ),
        EventV::Text(x) => (
            LinkRewriterV {
                current: match st.current {
                    Some(l) => Some(LinkV { title: l.title + x, url: l.url }),
                    None => None,
                },
                ..st
            },
            pass(s),
        ),
        _ => (st, pass(s)),
    }
}

impl LinkRewriter {
    pub open spec fn spec_rewritten(&self, url: Seq<char>) -> Seq<char> {
        rewritten(self.url_root@, pairs_view(self.link_rewrite_rules@), url)
    }

    pub open spec fn spec_link_url(&self, url: Seq<char>) -> Seq<char> {
        link_url(
            self.url_root@,
            pairs_view(self.link_rewrite_rules@),
            pairs_view(self.url_params@),
            url,
        )
    }

    /// Rewrites a URL by an explicit rule, or by moving a site path under
    /// the root.
    pub fn rewrite_link(&self, url: &str) -> (r: String)
        ensures
            r@ == self.spec_rewritten(url@),
    {
        let ghost rules = pairs_view(self.link_rewrite_rules@);
        let mut i: usize = 0;
        assert(rules.subrange(0, rules.len() as int) =~= rules);
        while i < self.link_rewrite_rules.len()
            invariant
                rules == pairs_view(self.link_rewrite_rules@),
                i <= rules.len(),
                rule_for(rules, url@) == rule_for(rules.subrange(i as int, rules.len() as int), url@),
            decreases rules.len() - i,
        {
            let ghost rest = rules.subrange(i as int, rules.len() as int);
            assert(rest.drop_first() =~= rules.subrange(i + 1, rules.len() as int));
            if str_eq(self.link_rewrite_rules[i].0.as_str(), url) {
                return self.link_rewrite_rules[i].1.clone();
            }
            i = i + 1;
        }
        if starts_with(url, "/") {
            concat(trim_end_matches(self.url_root.as_str(), '/'), url)
        } else {
            url.to_string()
        }
    }

    /// The URL a link ends up with.
    pub fn link_url(&self, url: &str) -> (r: String)
        ensures
            r@ == self.spec_link_url(url@),
    {
        let rewritten = self.rewrite_link(url);
        if self.url_params.len() > 0 && is_in_local_domain(rewritten.as_str()) {
            append_parameters(rewritten, &self.url_params)
        } else {
            rewritten
        }
    }

    /// Handles one event as `links_step` says.
    pub fn process_event(&mut self, events: &mut Vec<Event>, event: &Event) -> (r: (
        Option<Vec<Output>>,
        bool,
    ))
        ensures
            (final(self)@, step_of(final(events)@, r)) == links_step(
                old(self)@,
                events_view(old(events)@),
                event@,
            ),
    {
        match event {
            Event::Start(Tag::Image(lt, url, title)) => {
                let u = self.link_url(url.as_str());
                let out = vec![Output::Event(Event::Start(Tag::Image(*lt, u, title.clone())))];
                assert(outputs_view(out@) =~= seq![out@[0]@]);
                (Some(out), true)
            },
            Event::Start(Tag::Link(lt, url, title)) => {
                let u = self.link_url(url.as_str());
                if *lt == LinkType::Inline {
                    match classify_url(u.as_str()) {
                        Some(target) => {
                            self.current_link = Some(Link { title: title.clone(), url: target });
                        },
                        None => {},
                    }
                }
                let out = vec![Output::Event(Event::Start(Tag::Link(*lt, u, title.clone())))];
                assert(outputs_view(out@) =~= seq![out@[0]@]);
                (Some(out), true)
            },
            Event::End(Tag::Link(..)) => {
                let mut out: Vec<Output> = Vec::new();
                match self.current_link.take() {
                    Some(l) => out.push(Output::Link(l)),
                    None => {},
                }
                out.push(Output::Event(event.copy()));
                assert(outputs_view(out@) =~= match old(self).current_link {
                    Some(l) => seq![OutputV::Link(l@)],
                    None => seq![],
                } + seq![OutputV::Event(event@)]);
                (Some(out), true)
            },
            Event::Text(x) => {
                match self.current_link.take() {
                    Some(mut l) => {
                        push_str(&mut l.title, x.as_str());
                        self.current_link = Some(l);
                    },
                    None => {},
                }
                (None, false)
            },
            _ => (None, false),
        }
    }
}

/// Only site paths move under the root: with no rule for the URL, a path
/// beginning with `/` gets the root (without its trailing slashes) in front,
/// and any other URL, relative or external, is left as it is.
pub proof fn lemma_only_site_paths_move(
    root: Seq<char>,
    rules: Seq<(Seq<char>, Seq<char>)>,
    url: Seq<char>,
)
    requires
        rule_for(rules, url) is None,
    ensures
        has_prefix(url, "/"@) ==> rewritten(root, rules, url) == trim_end_char(root, '/') + url,
        !has_prefix(url, "/"@) ==> rewritten(root, rules, url) == url,
{
}

/// Query parameters are only ever added to URLs in the site's own domain:
/// a link URL that differs from the rewritten URL points into the site, and
/// is that URL followed by `?` and the parameters in their order.
pub proof fn lemma_parameters_only_for_local_urls(
    root: Seq<char>,
    rules: Seq<(Seq<char>, Seq<char>)>,
    params: Seq<(Seq<char>, Seq<char>)>,
    url: Seq<char>,
)
    ensures
        !in_local_domain(rewritten(root, rules, url)) ==> link_url(root, rules, params, url)
            == rewritten(root, rules, url),
        params.len() == 0 ==> link_url(root, rules, params, url) == rewritten(root, rules, url),
        link_url(root, rules, params, url) != rewritten(root, rules, url) ==> {
            &&& in_local_domain(rewritten(root, rules, url))
            &&& link_url(root, rules, params, url) == rewritten(root, rules, url) + "?"@
                + query_of(params)
        },
{
}

/// With distinct keys the rewrite rules act as a map: the substitution for
/// a rule's URL is the URL paired with it, wherever the rule stands.
pub proof fn lemma_rules_act_as_a_map(rules: Seq<(Seq<char>, Seq<char>)>, i: int)
    requires
        0 <= i < rules.len(),
        forall|j: int, k: int| 0 <= j < k < rules.len() ==> rules[j].0 != rules[k].0,
    ensures
        rule_for(rules, rules[i].0) == Some(rules[i].1),
    decreases rules.len(),
{
    if i > 0 {
        let rest = rules.drop_first();
        assert(rules[0].0 != rules[i].0);
        assert forall|j: int, k: int| 0 <= j < k < rest.len() implies rest[j].0 != rest[k].0 by {
            assert(rules[j + 1].0 != rules[k + 1].0);
        }
        lemma_rules_act_as_a_map(rest, i - 1);
        assert(rest[i - 1] == rules[i]);
    }
}

} // verus!
