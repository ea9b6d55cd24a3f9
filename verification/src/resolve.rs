//! What a resolution is asked, what it answers, and the key under which an
//! answer is remembered.

use crate::cache::fingerprint::IoFailure;
use crate::text::push;
use vstd::prelude::*;

verus! {

/// The identity of a module: a text. Cache entries are filed under one.
#[derive(Debug, PartialEq, Eq)]
pub struct ModuleIdentifier(pub String);

impl View for ModuleIdentifier {
    type V = Seq<char>;

    open spec fn view(&self) -> Seq<char> {
        self.0@
    }
}

impl Clone for ModuleIdentifier {
    fn clone(&self) -> (copy: Self)
        ensures
            copy@ == self@,
    {
        ModuleIdentifier(self.0.clone())
    }
}

impl ModuleIdentifier {
    /// The identifier with the text `text`.
    pub fn from(text: &str) -> (id: ModuleIdentifier)
        ensures
            id@ == text@,
    {
        ModuleIdentifier(text.to_owned())
    }
}

/// Why one module depends on another.
#[derive(Clone, Copy, Debug, PartialEq, Eq, Structural)]
pub enum DependencyType {
    Unknown,
    Entry,
    EsmImport,
    EsmExport,
    DynamicImport,
    CjsRequire,
    NewUrl,
    CssUrl,
    CssImport,
    WasmImport,
}

impl DependencyType {
    /// The name of the variant.
    pub open spec fn tag_text(self) -> Seq<char> {
        match self {
            DependencyType::Unknown => "Unknown"@,
            DependencyType::Entry => "Entry"@,
            DependencyType::EsmImport => "EsmImport"@,
            DependencyType::EsmExport => "EsmExport"@,
            DependencyType::DynamicImport => "DynamicImport"@,
            DependencyType::CjsRequire => "CjsRequire"@,
            DependencyType::NewUrl => "NewUrl"@,
            DependencyType::CssUrl => "CssUrl"@,
            DependencyType::CssImport => "CssImport"@,
            DependencyType::WasmImport => "WasmImport"@,
        }
    }

    /// The name of the variant.
    pub fn tag(&self) -> (name: &'static str)
        ensures
            name@ == self.tag_text(),
    {
        match self {
            DependencyType::Unknown => "Unknown",
            DependencyType::Entry => "Entry",
            DependencyType::EsmImport => "EsmImport",
            DependencyType::EsmExport => "EsmExport",
            DependencyType::DynamicImport => "DynamicImport",
            DependencyType::CjsRequire => "CjsRequire",
            DependencyType::NewUrl => "NewUrl",
            DependencyType::CssUrl => "CssUrl",
            DependencyType::CssImport => "CssImport",
            DependencyType::WasmImport => "WasmImport",
        }
    }
}

/// One request to resolve `specifier`, written in the module `importer`
/// that lies in the directory `context`.
pub struct ResolveArgs<'a> {
    pub importer: Option<&'a ModuleIdentifier>,
    pub context: Option<String>,
    pub specifier: &'a str,
    pub dependency_type: &'a DependencyType,
}

/// A request as plain values.
pub struct ResolveArgsView {
    pub importer: Option<Seq<char>>,
    pub context: Option<Seq<char>>,
    pub specifier: Seq<char>,
    pub dependency_type: DependencyType,
}

impl<'a> View for ResolveArgs<'a> {
    type V = ResolveArgsView;

    open spec fn view(&self) -> ResolveArgsView {
        ResolveArgsView {
            importer: match self.importer {
                Some(id) => Some(id@),
                None => None,
            },
            context: match self.context {
                Some(context) => Some(context@),
                None => None,
            },
            specifier: self.specifier@,
            dependency_type: *self.dependency_type,
        }
    }
}

/// Whether `c` has a meaning of its own in a key, so that it is written
/// with a backslash before it where it is part of a field.
pub open spec fn is_marked(c: char) -> bool {
    c == '|' || c == '\\'
}

/// A text as a field of a key: with a backslash before each bar and each
/// backslash. No bar in it stands without one.
pub open spec fn field_text(text: Seq<char>) -> Seq<char>
    decreases text.len(),
{
    if text.len() == 0 {
        Seq::empty()
    } else if is_marked(text[0]) {
        seq!['\\', text[0]] + field_text(text.drop_first())
    } else {
        seq![text[0]] + field_text(text.drop_first())
    }
}

/// A field, the bar that ends it, and what follows.
pub open spec fn joined(field: Seq<char>, rest: Seq<char>) -> Seq<char> {
    field_text(field) + seq!['|'] + rest
}

/// The text, or no text where there is none.
pub open spec fn or_empty(text: Option<Seq<char>>) -> Seq<char> {
    match text {
        Some(text) => text,
        None => Seq::empty(),
    }
}

/// The key of a request with these parts. It has five fields with a bar
/// after each but the last: the version of this layout, `1`; the directory
/// after a plus, or a minus where there is none; the importer, empty where
/// there is none; the specifier; the name of the dependency type.
pub open spec fn parts_text(
    context: Option<Seq<char>>,
    importer: Option<Seq<char>>,
    specifier: Seq<char>,
    dependency_type: DependencyType,
) -> Seq<char> {
    seq!['1', '|'] + seq![if context is Some { '+' } else { '-' }] + joined(
        or_empty(context),
        joined(or_empty(importer), joined(specifier, dependency_type.tag_text())),
    )
}

/// The key of a request.
pub open spec fn key_text(args: ResolveArgsView) -> Seq<char> {
    parts_text(args.context, args.importer, args.specifier, args.dependency_type)
}

/// A field that grows by a character grows by that character, after a
/// backslash where it is marked.
proof fn lemma_field_grows(text: Seq<char>, c: char)
    ensures
        field_text(text.push(c)) == field_text(text) + if is_marked(c) {
            seq!['\\', c]
        } else {
            seq![c]
        },
    decreases text.len(),
{
    let grown = text.push(c);
    let tail = if is_marked(c) {
        seq!['\\', c]
    } else {
        seq![c]
    };
    if text.len() == 0 {
        assert(grown.drop_first() =~= Seq::<char>::empty());
        assert(field_text(grown) =~= field_text(text) + tail);
    } else {
        assert(grown[0] == text[0]);
        assert(grown.drop_first() =~= text.drop_first().push(c));
        lemma_field_grows(text.drop_first(), c);
        let head = if is_marked(text[0]) {
            seq!['\\', text[0]]
        } else {
            seq![text[0]]
        };
        assert(field_text(grown) == head + field_text(grown.drop_first()));
        assert(field_text(text) == head + field_text(text.drop_first()));
        assert(field_text(grown) =~= field_text(text) + tail);
    }
}

/// Writes `text` at the end of `key` as a field.
fn push_field(key: &mut String, text: &str)
    ensures
        final(key)@ == old(key)@ + field_text(text@),
{
    let ghost before = key@;
    let ghost all = text@;
    assert(before + field_text(all.take(0)) =~= before);
    for c in it: text.chars()
        invariant
            it.seq() == all,
            key@ == before + field_text(all.take(it.index() as int)),
    {
        proof {
            let done = it.index() as int;
            assert(all.take(done + 1) =~= all.take(done).push(c));
            lemma_field_grows(all.take(done), c);
        }
        let ghost so_far = key@;
        if c == '|' || c == '\\' {
            push(key, '\\');
        }
        push(key, c);
        assert(key@ =~= so_far + if is_marked(c) {
            seq!['\\', c]
        } else {
            seq![c]
        });
        assert(key@ =~= before + field_text(all.take(it.index() as int + 1)));
    }
    assert(all.take(all.len() as int) =~= all);
}

/// Builds the key of a request from its parts.
pub fn key_of_parts(
    context: Option<&str>,
    importer: Option<&ModuleIdentifier>,
    specifier: &str,
    dependency_type: &DependencyType,
) -> (key: ModuleIdentifier)
    ensures
        key@ == parts_text(
            match context {
                Some(context) => Some(context@),
                None => None,
            },
            match importer {
                Some(importer) => Some(importer@),
                None => None,
            },
            specifier@,
            *dependency_type,
        ),
{
    let mut text = String::new();
    push(&mut text, '1');
    push(&mut text, '|');
    match context {
        Some(context) => {
            push(&mut text, '+');
            push_field(&mut text, context);
        },
        None => {
            push(&mut text, '-');
        },
    }
    push(&mut text, '|');
    match importer {
        Some(importer) => {
            push_field(&mut text, importer.0.as_str());
        },
        None => {},
    }
    push(&mut text, '|');
    push_field(&mut text, specifier);
    push(&mut text, '|');
    text.append(dependency_type.tag());
    assert(text@ =~= parts_text(
        match context {
            Some(context) => Some(context@),
            None => None,
        },
        match importer {
            Some(importer) => Some(importer@),
            None => None,
        },
        specifier@,
        *dependency_type,
    ));
    ModuleIdentifier(text)
}

/// Derives the key under which the answer to `args` is filed.
pub fn cache_key(args: &ResolveArgs) -> (key: ModuleIdentifier)
    ensures
        key@ == key_text(args@),
{
    let context = match &args.context {
        Some(context) => Some(context.as_str()),
        None => None,
    };
    key_of_parts(context, args.importer, args.specifier, args.dependency_type)
}

/// Two requests that agree in directory, importer, specifier and dependency
/// type have the same key.
pub proof fn key_is_deterministic(a: ResolveArgsView, b: ResolveArgsView)
    requires
        a.context == b.context,
        a.importer == b.importer,
        a.specifier == b.specifier,
        a.dependency_type == b.dependency_type,
    ensures
        key_text(a) == key_text(b),
{
}

/// A field ends at the first bar without a backslash before it: two texts
/// that begin with a field and its bar and are equal have the same field
/// and the same rest.
proof fn lemma_field_ends(a: Seq<char>, rest_a: Seq<char>, b: Seq<char>, rest_b: Seq<char>)
    requires
        joined(a, rest_a) == joined(b, rest_b),
    ensures
        a == b,
        rest_a == rest_b,
    decreases a.len(),
{
    let whole_a = joined(a, rest_a);
    let whole_b = joined(b, rest_b);
    if a.len() == 0 {
        assert(whole_a[0] == '|');
        if b.len() > 0 {
            assert(whole_b[0] == field_text(b)[0]);
            assert(false);
        }
        assert(a =~= b);
        assert(rest_a =~= whole_a.skip(1));
        assert(rest_b =~= whole_b.skip(1));
    } else if b.len() == 0 {
        assert(whole_b[0] == '|');
        assert(whole_a[0] == field_text(a)[0]);
        assert(false);
    } else {
        assert(whole_a[0] == field_text(a)[0]);
        assert(whole_b[0] == field_text(b)[0]);
        if is_marked(a[0]) {
            assert(is_marked(b[0]));
            assert(whole_a[1] == a[0]);
            assert(whole_b[1] == b[0]);
            assert(whole_a.skip(2) =~= joined(a.drop_first(), rest_a));
            assert(whole_b.skip(2) =~= joined(b.drop_first(), rest_b));
        } else {
            assert(!is_marked(b[0]));
            assert(whole_a.skip(1) =~= joined(a.drop_first(), rest_a));
            assert(whole_b.skip(1) =~= joined(b.drop_first(), rest_b));
        }
        lemma_field_ends(a.drop_first(), rest_a, b.drop_first(), rest_b);
        assert(a =~= seq![a[0]] + a.drop_first());
        assert(b =~= seq![b[0]] + b.drop_first());
    }
}

/// Each dependency type has a name of its own.
proof fn lemma_tags_differ(a: DependencyType, b: DependencyType)
    requires
        a.tag_text() == b.tag_text(),
    ensures
        a == b,
{
    reveal_strlit("Unknown");
    reveal_strlit("Entry");
    reveal_strlit("EsmImport");
    reveal_strlit("EsmExport");
    reveal_strlit("DynamicImport");
    reveal_strlit("CjsRequire");
    reveal_strlit("NewUrl");
    reveal_strlit("CssUrl");
    reveal_strlit("CssImport");
    reveal_strlit("WasmImport");
    assert(DependencyType::Unknown.tag_text().len() == 7);
    assert(DependencyType::Entry.tag_text().len() == 5);
    assert(DependencyType::DynamicImport.tag_text().len() == 13);
    assert(DependencyType::EsmImport.tag_text().len() == 9 && DependencyType::EsmImport.tag_text()[0]
        == 'E' && DependencyType::EsmImport.tag_text()[3] == 'I');
    assert(DependencyType::EsmExport.tag_text().len() == 9 && DependencyType::EsmExport.tag_text()[0]
        == 'E' && DependencyType::EsmExport.tag_text()[3] == 'E');
    assert(DependencyType::CssImport.tag_text().len() == 9 && DependencyType::CssImport.tag_text()[0]
        == 'C');
    assert(DependencyType::CjsRequire.tag_text().len() == 10
        && DependencyType::CjsRequire.tag_text()[0] == 'C');
    assert(DependencyType::WasmImport.tag_text().len() == 10
        && DependencyType::WasmImport.tag_text()[0] == 'W');
    assert(DependencyType::NewUrl.tag_text().len() == 6 && DependencyType::NewUrl.tag_text()[0]
        == 'N');
    assert(DependencyType::CssUrl.tag_text().len() == 6 && DependencyType::CssUrl.tag_text()[0]
        == 'C');
}

/// Requests with the same key are the same request: they agree in
/// directory, specifier and dependency type, and in importer, where none
/// counts as the empty one. No two requests are filed under one key by
/// chance of what their fields hold.
pub proof fn key_is_injective(a: ResolveArgsView, b: ResolveArgsView)
    requires
        key_text(a) == key_text(b),
    ensures
        a.context == b.context,
        or_empty(a.importer) == or_empty(b.importer),
        a.specifier == b.specifier,
        a.dependency_type == b.dependency_type,
{
    let tail_a = joined(
        or_empty(a.context),
        joined(or_empty(a.importer), joined(a.specifier, a.dependency_type.tag_text())),
    );
    let tail_b = joined(
        or_empty(b.context),
        joined(or_empty(b.importer), joined(b.specifier, b.dependency_type.tag_text())),
    );
    assert(key_text(a)[2] == if a.context is Some { '+' } else { '-' });
    assert(key_text(b)[2] == if b.context is Some { '+' } else { '-' });
    assert(key_text(a).skip(3) =~= tail_a);
    assert(key_text(b).skip(3) =~= tail_b);
    lemma_field_ends(
        or_empty(a.context),
        joined(or_empty(a.importer), joined(a.specifier, a.dependency_type.tag_text())),
        or_empty(b.context),
        joined(or_empty(b.importer), joined(b.specifier, b.dependency_type.tag_text())),
    );
    lemma_field_ends(
        or_empty(a.importer),
        joined(a.specifier, a.dependency_type.tag_text()),
        or_empty(b.importer),
        joined(b.specifier, b.dependency_type.tag_text()),
    );
    lemma_field_ends(
        a.specifier,
        a.dependency_type.tag_text(),
        b.specifier,
        b.dependency_type.tag_text(),
    );
    lemma_tags_differ(a.dependency_type, b.dependency_type);
}

/// The file that a specifier resolved to.
#[derive(Debug, PartialEq, Eq)]
pub struct Resource {
    pub path: String,
    pub query: Option<String>,
    pub fragment: Option<String>,
}

/// A resource as plain values.
pub struct ResourceView {
    pub path: Seq<char>,
    pub query: Option<Seq<char>>,
    pub fragment: Option<Seq<char>>,
}

impl View for Resource {
    type V = ResourceView;

    open spec fn view(&self) -> ResourceView {
        ResourceView {
            path: self.path@,
            query: self.query.deep_view(),
            fragment: self.fragment.deep_view(),
        }
    }
}

impl Clone for Resource {
    fn clone(&self) -> (copy: Self)
        ensures
            copy@ == self@,
    {
        Resource {
            path: self.path.clone(),
            query: self.query.clone(),
            fragment: self.fragment.clone(),
        }
    }
}

/// The answer of a resolution.
#[derive(Debug, PartialEq, Eq)]
pub enum ResolveResult {
    /// The specifier names this file.
    Resource(Resource),
    /// The specifier is to be left out of the build.
    Ignored,
}

/// An answer as plain values.
pub enum ResolveResultView {
    Resource(ResourceView),
    Ignored,
}

impl View for ResolveResult {
    type V = ResolveResultView;

    open spec fn view(&self) -> ResolveResultView {
        match self {
            ResolveResult::Resource(resource) => ResolveResultView::Resource(resource@),
            ResolveResult::Ignored => ResolveResultView::Ignored,
        }
    }
}

impl Clone for ResolveResult {
    fn clone(&self) -> (copy: Self)
        ensures
            copy@ == self@,
    {
        match self {
            ResolveResult::Resource(resource) => ResolveResult::Resource(resource.clone()),
            ResolveResult::Ignored => ResolveResult::Ignored,
        }
    }
}

/// The paths whose state an answer depends on: the path of the file it
/// names, none where it names no file.
pub open spec fn dependency_paths(result: ResolveResultView) -> Seq<Seq<char>> {
    match result {
        ResolveResultView::Resource(resource) => seq![resource.path],
        ResolveResultView::Ignored => Seq::empty(),
    }
}

impl ResolveResult {
    /// The paths whose state this answer depends on.
    pub fn dependency_paths(&self) -> (paths: Vec<String>)
        ensures
            paths.deep_view() == dependency_paths(self@),
    {
        let mut paths: Vec<String> = Vec::new();
        if let ResolveResult::Resource(resource) = self {
            paths.push(resource.path.clone());
        }
        assert(paths.deep_view() =~= dependency_paths(self@));
        paths
    }
}

/// What lies behind a failed resolution.
#[derive(Debug, PartialEq, Eq)]
pub enum ErrorCause {
    /// The resolver gave up; the text is what it reported.
    Resolver(String),
    /// The answer was found, but a file it depends on could not be
    /// fingerprinted.
    Snapshot(IoFailure),
}

/// A cause as plain values.
pub enum ErrorCauseView {
    Resolver(Seq<char>),
    Snapshot(Seq<char>),
}

impl View for ErrorCause {
    type V = ErrorCauseView;

    open spec fn view(&self) -> ErrorCauseView {
        match self {
            ErrorCause::Resolver(report) => ErrorCauseView::Resolver(report@),
            ErrorCause::Snapshot(failure) => ErrorCauseView::Snapshot(failure@),
        }
    }
}

/// A resolution failed: a message, and the cause behind it.
#[derive(Debug, PartialEq, Eq)]
pub struct ResolveError(pub String, pub ErrorCause);

/// A failed resolution as plain values.
pub struct ResolveErrorView {
    pub message: Seq<char>,
    pub cause: ErrorCauseView,
}

impl View for ResolveError {
    type V = ResolveErrorView;

    open spec fn view(&self) -> ResolveErrorView {
        ResolveErrorView { message: self.0@, cause: self.1@ }
    }
}

/// The failure of a resolution whose answer could not be snapshotted for
/// `reason`: the reason is the message, and the cause keeps it.
pub open spec fn snapshot_error(reason: Seq<char>) -> ResolveErrorView {
    ResolveErrorView { message: reason, cause: ErrorCauseView::Snapshot(reason) }
}

impl ResolveError {
    /// Wraps the failure to fingerprint a file that an answer depends on.
    pub fn from_snapshot(failure: IoFailure) -> (error: ResolveError)
        ensures
            error@ == snapshot_error(failure@),
    {
        ResolveError(failure.reason.clone(), ErrorCause::Snapshot(failure))
    }
}

/// What a resolver hands back.
pub type Resolved = Result<ResolveResult, ResolveError>;

/// What a resolver hands back, as plain values.
pub type ResolvedView = Result<ResolveResultView, ResolveErrorView>;

/// What a resolver hands back, as plain values.
pub open spec fn resolved_view(resolved: Resolved) -> ResolvedView {
    match resolved {
        Ok(result) => Ok(result@),
        Err(error) => Err(error@),
    }
}

} // verus!
