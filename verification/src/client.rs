//! The catalog of templates and the creation of an ignore file, as decisions
//! on what the service answered. The requests themselves are the caller's.

use crate::error::fetch_templates_failed;
use crate::error::generic;
use crate::error::Error;
use crate::error::ErrorView;
use crate::error::Result;
use crate::status::client_error;
use crate::status::is_client_error;
use crate::status::is_not_found;
use crate::status::is_server_error;
use crate::status::not_found;
use crate::status::server_error;
use crate::text::join;
use crate::text::joined;
use crate::text::lines;
use crate::text::pieces;
use crate::text::split;
use crate::text::split_lines;
use vstd::prelude::*;
use vstd::string::StringExecFns;

verus! {

/// The address under which the service answers.
pub const API_URL: &'static str = "https://www.toptal.com/developers/gitignore/api";

/// How a client names itself to the service, which turns away requests that
/// name no client.
pub const USER_AGENT: &'static str = "Mozilla/5.0";

/// What came of one request to the service.
#[derive(Debug, PartialEq, Eq)]
pub enum Reply {
    /// The request ended before the service gave a status.
    Failed,
    /// The service answered with `status`; `body` is the text it sent, or
    /// `None` where that could not be read as text.
    Answer { status: u16, body: Option<String> },
}

/// A [`Reply`] as a mathematical value.
pub enum ReplyView {
    Failed,
    Answer { status: u16, body: Option<Seq<char>> },
}

impl View for Reply {
    type V = ReplyView;

    open spec fn view(&self) -> ReplyView {
        match self {
            Reply::Failed => ReplyView::Failed,
            Reply::Answer { status, body } => ReplyView::Answer {
                status: *status,
                body: match body {
                    Some(text) => Some(text@),
                    None => None,
                },
            },
        }
    }
}

/// The address of the catalog.
pub open spec fn list_url() -> Seq<char> {
    API_URL@ + "/list"@
}

/// The address of the ignore file for `requested`: the names stand in it as
/// they were given, in their order, with commas between them.
pub open spec fn create_url(requested: Seq<Seq<char>>) -> Seq<char> {
    API_URL@ + "/"@ + joined(requested, ","@)
}

/// The names that `found` lines hold: each line that is not empty gives the
/// pieces between its commas.
pub open spec fn names_in(found: Seq<Seq<char>>) -> Seq<Seq<char>> {
    found.filter(|l: Seq<char>| l.len() > 0).flat_map(|l: Seq<char>| pieces(l, ','))
}

/// The catalog that the text `body` lists.
pub open spec fn catalog(body: Seq<char>) -> Seq<Seq<char>> {
    names_in(lines(body))
}

/// What a request for the catalog comes to: the catalog where the service
/// answered 200 with a readable body, and the failure to fetch otherwise.
pub open spec fn listing(reply: ReplyView) -> std::result::Result<Seq<Seq<char>>, ErrorView> {
    match reply {
        ReplyView::Answer { status, body: Some(text) } if status == 200 => Ok(catalog(text)),
        _ => Err(fetch_templates_failed()),
    }
}

/// The requested names that `known` does not hold, in the order and as often
/// as they were requested.
pub open spec fn unknown(known: Seq<Seq<char>>, requested: Seq<Seq<char>>) -> Seq<Seq<char>> {
    requested.filter(|t: Seq<char>| !known.contains(t))
}

/// A list of names, or a failure, as a mathematical value.
pub open spec fn names_view(r: Result<Vec<String>>) -> std::result::Result<
    Seq<Seq<char>>,
    ErrorView,
> {
    match r {
        Ok(names) => Ok(names.deep_view()),
        Err(e) => Err(e@),
    }
}

/// A text, or a failure, as a mathematical value.
pub open spec fn text_view(r: Result<String>) -> std::result::Result<Seq<char>, ErrorView> {
    match r {
        Ok(text) => Ok(text@),
        Err(e) => Err(e@),
    }
}

/// The address to ask for the catalog.
pub fn list_endpoint() -> (url: String)
    ensures
        url@ == list_url(),
{
    let mut url = String::from_str(API_URL);
    url.append("/list");
    url
}

/// The address to ask for the ignore file of `templates`.
pub fn create_endpoint(templates: &[String]) -> (url: String)
    ensures
        url@ == create_url(templates.deep_view()),
{
    let names = join(templates, ",");
    let mut url = String::from_str(API_URL);
    url.append("/");
    url.append(names.as_str());
    url
}

/// The catalog keeps the order of the text: the names of lines that follow
/// others stand behind the names of those, a line that is not empty gives the
/// pieces between its commas, and an empty line gives nothing.
pub proof fn lemma_names_in_keeps_order(a: Seq<Seq<char>>, b: Seq<Seq<char>>, line: Seq<char>)
    ensures
        names_in(a + b) == names_in(a) + names_in(b),
        names_in(seq![line]) == if line.len() > 0 {
            pieces(line, ',')
        } else {
            Seq::<Seq<char>>::empty()
        },
{
    let kept = |l: Seq<char>| l.len() > 0;
    let cut = |l: Seq<char>| pieces(l, ',');
    Seq::filter_distributes_over_add(a, b, kept);
    let ka = a.filter(kept);
    let kb = b.filter(kept);
    assert((ka + kb).map_values(cut) =~= ka.map_values(cut) + kb.map_values(cut));
    vstd::seq_lib::lemma_flatten_concat(ka.map_values(cut), kb.map_values(cut));
    let none = Seq::<Seq<char>>::empty();
    assert(none.filter(kept) =~= none) by {
        reveal(Seq::filter);
    }
    none.lemma_filter_push(line, kept);
    assert(none.push(line) =~= seq![line]);
    if line.len() > 0 {
        none.lemma_flat_map_push(cut, line);
        assert(none.flat_map(cut) =~= Seq::<Seq<char>>::empty());
        assert(none.flat_map(cut) + pieces(line, ',') =~= pieces(line, ','));
    } else {
        assert(none.flat_map(cut) =~= Seq::<Seq<char>>::empty());
    }
}

/// The service is told who asks.
pub proof fn lemma_user_agent_is_named()
    ensures
        USER_AGENT@.len() > 0,
{
    reveal_strlit("Mozilla/5.0");
}

/// Reads the catalog out of the service's reply to a request for
/// [`list_endpoint`].
pub fn list_templates(reply: Reply) -> (r: Result<Vec<String>>)
    ensures
        names_view(r) == listing(reply@),
{
    match reply {
        Reply::Answer { status, body: Some(text) } => {
            if status == 200 {
                let found = split_lines(text.as_str());
                let mut names: Vec<String> = Vec::new();
                let mut i: usize = 0;
                assert(found.deep_view().take(0) =~= Seq::<Seq<char>>::empty());
                assert(names_in(Seq::empty()) =~= Seq::<Seq<char>>::empty()) by {
                    reveal(Seq::filter);
                }
                while i < found.len()
                    invariant
                        i <= found.len(),
                        names.deep_view() == names_in(found.deep_view().take(i as int)),
                    decreases found.len() - i,
                {
                    proof {
                        let seen = found.deep_view().take(i as int);
                        lemma_names_in_keeps_order(seen, seq![found[i as int]@], found[i as int]@);
                        assert(found.deep_view().take(i + 1) =~= seen + seq![found[i as int]@]);
                        assert(names_in(seen) + Seq::<Seq<char>>::empty() =~= names_in(seen));
                    }
                    if !found[i].as_str().is_empty() {
                        let ghost before = names.deep_view();
                        let mut more = split(found[i].as_str(), ',');
                        let ghost added = more.deep_view();
                        names.append(&mut more);
                        assert(names.deep_view() =~= before + added);
                    }
                    i += 1;
                }
                assert(found.deep_view().take(i as int) =~= found.deep_view());
                Ok(names)
            } else {
                Err(Error::fetch_templates_failed())
            }
        },
        _ => Err(Error::fetch_templates_failed()),
    }
}

/// What the diagnosis of a "not found" comes to, given the names that were
/// requested and the reply to a fresh request for the catalog. It is always a
/// failure: the names that the catalog lacks where there are any, and the
/// generic failure where the catalog could not be had or lacks none.
pub open spec fn diagnosis(requested: Seq<Seq<char>>, reply: ReplyView) -> ErrorView {
    match listing(reply) {
        Ok(known) => if unknown(known, requested).len() > 0 {
            ErrorView::TemplateNotFound(unknown(known, requested))
        } else {
            generic()
        },
        Err(_) => generic(),
    }
}

/// Whether `names` holds `name`, letter for letter.
fn holds(names: &[String], name: &String) -> (r: bool)
    ensures
        r == names.deep_view().contains(name@),
{
    let mut i: usize = 0;
    while i < names.len()
        invariant
            i <= names.len(),
            forall|k: int| 0 <= k < i ==> names.deep_view()[k] != name@,
        decreases names.len() - i,
    {
        if names[i] == *name {
            assert(names.deep_view()[i as int] == name@);
            return true;
        }
        i += 1;
    }
    false
}

/// The requested names that the catalog does not hold.
pub fn find_unknown_templates(known_templates: &[String], templates: &[String]) -> (r: Vec<String>)
    ensures
        r.deep_view() == unknown(known_templates.deep_view(), templates.deep_view()),
{
    let ghost known = known_templates.deep_view();
    let ghost missing = |t: Seq<char>| !known.contains(t);
    let mut r: Vec<String> = Vec::new();
    let mut i: usize = 0;
    assert(templates.deep_view().take(0).filter(missing) =~= Seq::<Seq<char>>::empty()) by {
        reveal(Seq::filter);
    }
    while i < templates.len()
        invariant
            i <= templates.len(),
            known == known_templates.deep_view(),
            missing == (|t: Seq<char>| !known.contains(t)),
            r.deep_view() == templates.deep_view().take(i as int).filter(missing),
        decreases templates.len() - i,
    {
        proof {
            let seen = templates.deep_view().take(i as int);
            seen.lemma_filter_push(templates[i as int]@, missing);
            assert(templates.deep_view().take(i + 1) =~= seen.push(templates[i as int]@));
        }
        if !holds(known_templates, &templates[i]) {
            let ghost before = r.deep_view();
            r.push(templates[i].clone());
            assert(r.deep_view() =~= before.push(templates[i as int]@));
        }
        i += 1;
    }
    assert(templates.deep_view().take(i as int) =~= templates.deep_view());
    r
}

/// Diagnoses a "not found": `reply` is the service's reply to a fresh request
/// for [`list_endpoint`], made after the request for `templates` was answered
/// with 404.
pub fn handle_404(templates: &[String], reply: Reply) -> (r: Result<String>)
    ensures
        text_view(r) == Err::<Seq<char>, ErrorView>(diagnosis(templates.deep_view(), reply@)),
{
    let Ok(known_templates) = list_templates(reply) else {
        return Err(Error::generic());
    };
    let unknown_templates = find_unknown_templates(known_templates.as_slice(), templates);
    let err = if unknown_templates.len() > 0 {
        Error::TemplateNotFound(unknown_templates)
    } else {
        Error::generic()
    };
    Err(err)
}

/// A creation in progress. Where [`Composer::request`] gives an address, the
/// caller asks the service for it and hands the reply to [`Composer::step`];
/// where it gives none, [`Composer::result`] holds what the creation came to.
#[derive(Debug, PartialEq, Eq)]
pub enum Composer {
    /// The ignore file for these names is awaited.
    Requesting(Vec<String>),
    /// The service knew no such file; the catalog is awaited, to tell which
    /// of these names it lacks.
    Diagnosing(Vec<String>),
    /// Nothing more is awaited.
    Finished(Result<String>),
}

/// A [`Composer`] as a mathematical value.
pub enum ComposerView {
    Requesting(Seq<Seq<char>>),
    Diagnosing(Seq<Seq<char>>),
    Finished(std::result::Result<Seq<char>, ErrorView>),
}

impl View for Composer {
    type V = ComposerView;

    open spec fn view(&self) -> ComposerView {
        match self {
            Composer::Requesting(names) => ComposerView::Requesting(names.deep_view()),
            Composer::Diagnosing(names) => ComposerView::Diagnosing(names.deep_view()),
            Composer::Finished(r) => ComposerView::Finished(text_view(*r)),
        }
    }
}

impl ComposerView {
    /// The address that is to be asked for next, if any.
    pub open spec fn request(self) -> Option<Seq<char>> {
        match self {
            ComposerView::Requesting(names) => Some(create_url(names)),
            ComposerView::Diagnosing(_) => Some(list_url()),
            ComposerView::Finished(_) => None,
        }
    }

    /// The state after `reply` has come in.
    ///
    /// While the file is awaited: 404 turns to the diagnosis; any other
    /// status from 400 to 599, a request that failed and a body that could
    /// not be read end in the generic failure; every other status ends in
    /// the body as it was sent. While the catalog is awaited, the reply ends
    /// the creation in what [`diagnosis`] makes of it. A finished creation
    /// stays as it is.
    pub open spec fn step(self, reply: ReplyView) -> ComposerView {
        match self {
            ComposerView::Requesting(names) => match reply {
                ReplyView::Failed => ComposerView::Finished(Err(generic())),
                ReplyView::Answer { status, body } => if not_found(status) {
                    ComposerView::Diagnosing(names)
                } else if client_error(status) || server_error(status) {
                    ComposerView::Finished(Err(generic()))
                } else {
                    match body {
                        Some(text) => ComposerView::Finished(Ok(text)),
                        None => ComposerView::Finished(Err(generic())),
                    }
                },
            },
            ComposerView::Diagnosing(names) => ComposerView::Finished(
                Err(diagnosis(names, reply)),
            ),
            ComposerView::Finished(r) => ComposerView::Finished(r),
        }
    }

    /// What the creation came to, once it is finished.
    pub open spec fn result(self) -> Option<std::result::Result<Seq<char>, ErrorView>> {
        match self {
            ComposerView::Finished(r) => Some(r),
            _ => None,
        }
    }
}

/// What the creation of the ignore file for `requested` comes to, where the
/// service answers `first` to the request for the file and `second` to the
/// request for the catalog, should that be made.
pub open spec fn outcome(requested: Seq<Seq<char>>, first: ReplyView, second: ReplyView)
    -> std::result::Result<Seq<char>, ErrorView> {
    ComposerView::Requesting(requested).step(first).step(second)->Finished_0
}

impl Composer {
    /// The address that is to be asked for next, if any.
    pub fn request(&self) -> (url: Option<String>)
        ensures
            match url {
                Some(u) => self@.request() == Some(u@),
                None => self@.request() is None,
            },
    {
        match self {
            Composer::Requesting(names) => Some(create_endpoint(names.as_slice())),
            Composer::Diagnosing(_) => Some(list_endpoint()),
            Composer::Finished(_) => None,
        }
    }

    /// Takes in the service's reply to the request that [`Composer::request`]
    /// named.
    pub fn step(self, reply: Reply) -> (next: Composer)
        ensures
            next@ == self@.step(reply@),
    {
        match self {
            Composer::Requesting(names) => match reply {
                Reply::Failed => Composer::Finished(Err(Error::generic())),
                Reply::Answer { status, body } => {
                    if is_client_error(status) || is_server_error(status) {
                        if is_not_found(status) {
                            Composer::Diagnosing(names)
                        } else {
                            Composer::Finished(Err(Error::generic()))
                        }
                    } else {
                        match body {
                            Some(text) => Composer::Finished(Ok(text)),
                            None => Composer::Finished(Err(Error::generic())),
                        }
                    }
                },
            },
            Composer::Diagnosing(names) => Composer::Finished(handle_404(names.as_slice(), reply)),
            Composer::Finished(r) => Composer::Finished(r),
        }
    }

    /// What the creation came to, once it is finished.
    pub fn result(self) -> (r: Option<Result<String>>)
        ensures
            match r {
                Some(r) => self@.result() == Some(text_view(r)),
                None => self@.result() is None,
            },
    {
        match self {
            Composer::Finished(r) => Some(r),
            _ => None,
        }
    }
}

/// Begins the creation of the ignore file for `templates`: the names are
/// taken as they are, with nothing dropped, reordered or merged.
pub fn create(templates: Vec<String>) -> (c: Composer)
    ensures
        c@ == ComposerView::Requesting(templates.deep_view()),
{
    Composer::Requesting(templates)
}

/// A creation asks the service at most twice: after two replies it is
/// finished, whatever they were, and after a first reply other than 404 it
/// is finished already.
pub proof fn lemma_two_replies_finish(requested: Seq<Seq<char>>, first: ReplyView, second: ReplyView)
    ensures
        ComposerView::Requesting(requested).step(first).step(second) is Finished,
        ComposerView::Requesting(requested).step(first).step(second).request() is None,
        !(first matches ReplyView::Answer { status, .. } && status == 404)
            ==> ComposerView::Requesting(requested).step(first) is Finished,
{
}

/// A body that comes with a status outside 400 to 599 is returned as it was
/// sent.
pub proof fn lemma_body_is_returned(
    requested: Seq<Seq<char>>,
    status: u16,
    body: Seq<char>,
    second: ReplyView,
)
    requires
        !(400 <= status <= 599),
    ensures
        outcome(requested, ReplyView::Answer { status, body: Some(body) }, second) == Ok::<
            Seq<char>,
            ErrorView,
        >(body),
{
}

/// Where the file is not found and the catalog lacks a requested name, the
/// failure names exactly the requested names that the catalog lacks, that
/// name among them.
pub proof fn lemma_missing_names_are_reported(
    requested: Seq<Seq<char>>,
    body: Option<Seq<char>>,
    second: ReplyView,
    i: int,
)
    requires
        listing(second) is Ok,
        0 <= i < requested.len(),
        !listing(second)->Ok_0.contains(requested[i]),
    ensures
        outcome(requested, ReplyView::Answer { status: 404, body }, second) == Err::<
            Seq<char>,
            ErrorView,
        >(ErrorView::TemplateNotFound(unknown(listing(second)->Ok_0, requested))),
        unknown(listing(second)->Ok_0, requested).contains(requested[i]),
{
    let known = listing(second)->Ok_0;
    assert(requested.contains(requested[i]));
    lemma_unknown_members(known, requested, requested[i]);
}

/// Where the file is not found although the catalog holds every requested
/// name, the failure is the generic one.
pub proof fn lemma_all_known_is_generic(
    requested: Seq<Seq<char>>,
    body: Option<Seq<char>>,
    second: ReplyView,
)
    requires
        listing(second) is Ok,
        forall|i: int| 0 <= i < requested.len() ==> listing(second)->Ok_0.contains(requested[i]),
    ensures
        outcome(requested, ReplyView::Answer { status: 404, body }, second) == Err::<
            Seq<char>,
            ErrorView,
        >(generic()),
{
    let known = listing(second)->Ok_0;
    if unknown(known, requested).len() > 0 {
        let t = unknown(known, requested)[0];
        assert(unknown(known, requested).contains(t));
        lemma_unknown_members(known, requested, t);
    }
}

/// A status from 400 to 599 other than 404 ends in the generic failure at
/// once: the catalog is not asked for, and no reply to such a request could
/// change the result.
pub proof fn lemma_other_status_is_generic(
    requested: Seq<Seq<char>>,
    status: u16,
    body: Option<Seq<char>>,
    second: ReplyView,
)
    requires
        400 <= status <= 599,
        status != 404,
    ensures
        ComposerView::Requesting(requested).step(ReplyView::Answer { status, body }).request()
            is None,
        outcome(requested, ReplyView::Answer { status, body }, second) == Err::<
            Seq<char>,
            ErrorView,
        >(generic()),
{
}

/// A request for the file that failed before any status came ends in the
/// generic failure at once.
pub proof fn lemma_failed_request_is_generic(requested: Seq<Seq<char>>, second: ReplyView)
    ensures
        ComposerView::Requesting(requested).step(ReplyView::Failed).request() is None,
        outcome(requested, ReplyView::Failed, second) == Err::<Seq<char>, ErrorView>(generic()),
{
}

/// Where the file is not found and the catalog cannot be had either, the
/// failure is the generic one, not that of the catalog.
pub proof fn lemma_failed_diagnosis_is_generic(
    requested: Seq<Seq<char>>,
    body: Option<Seq<char>>,
    second: ReplyView,
)
    requires
        listing(second) is Err,
    ensures
        outcome(requested, ReplyView::Answer { status: 404, body }, second) == Err::<
            Seq<char>,
            ErrorView,
        >(generic()),
{
}

/// A failure that names templates names at least one.
pub proof fn lemma_not_found_names_some(
    requested: Seq<Seq<char>>,
    first: ReplyView,
    second: ReplyView,
)
    ensures
        outcome(requested, first, second) matches Err(ErrorView::TemplateNotFound(names))
            ==> names.len() > 0,
{
}

/// A name is among the unknown ones exactly if it was requested and the
/// catalog does not hold it, letter for letter.
pub proof fn lemma_unknown_members(known: Seq<Seq<char>>, requested: Seq<Seq<char>>, t: Seq<char>)
    ensures
        unknown(known, requested).contains(t) <==> requested.contains(t) && !known.contains(t),
{
    let missing = |t: Seq<char>| !known.contains(t);
    let found = requested.filter(missing);
    if found.contains(t) {
        let k = choose|k: int| 0 <= k < found.len() && found[k] == t;
        requested.lemma_filter_pred(missing, k);
        requested.lemma_filter_contains_rev(missing, t);
    }
    if requested.contains(t) && !known.contains(t) {
        let k = choose|k: int| 0 <= k < requested.len() && requested[k] == t;
        requested.lemma_filter_contains(missing, k);
    }
}

/// The unknown names keep the order and the number in which they were
/// requested: a single name stays or goes, and what holds of two lists holds
/// of one behind the other.
pub proof fn lemma_unknown_keeps_order(
    known: Seq<Seq<char>>,
    a: Seq<Seq<char>>,
    b: Seq<Seq<char>>,
    t: Seq<char>,
)
    ensures
        unknown(known, a + b) == unknown(known, a) + unknown(known, b),
        unknown(known, seq![t]) == if known.contains(t) {
            Seq::<Seq<char>>::empty()
        } else {
            seq![t]
        },
{
    let missing = |t: Seq<char>| !known.contains(t);
    Seq::filter_distributes_over_add(a, b, missing);
    Seq::<Seq<char>>::empty().lemma_filter_push(t, missing);
    assert(Seq::<Seq<char>>::empty().push(t) =~= seq![t]);
    assert(Seq::<Seq<char>>::empty().filter(missing) =~= Seq::<Seq<char>>::empty()) by {
        reveal(Seq::filter);
    }
}

} // verus!
