//! The request input: assembled from free text and loaded references, then
//! projected into messages, summaries and reconstructions.
use crate::error::InputError;
use crate::media::{
    medias_added, read_media_to_data_url, resolve_data_url, resolve_spec, table_wf, data_url_spec,
    mime_of_path, medias_wf, Medias,
};
use crate::message::{patch_system_message, system_patched, FunctionDeclaration, Message, MessageContent, MessageContentPart, MessageContentToolCalls, MessageRole, ToolResult};
use crate::reference::{absolutize_path, classify_reference, classify_spec, RefClass, Reference};
use crate::text::{join_spec, join_strings, lemma_strings_view_push, strings_view, summary_of, summary_spec};
use vstd::prelude::*;

verus! {

pub open spec fn opt_view(o: Option<String>) -> Option<Seq<char>> {
    match o {
        Some(s) => Some(s@),
        None => None,
    }
}

/// Capabilities of the model a request is meant for.
#[derive(Debug, Clone)]
pub struct Model {
    pub name: String,
    pub supports_vision: bool,
    pub no_stream: bool,
    /// The model takes no system message; it is folded into the next message.
    pub no_system_message: bool,
}

/// The role whose generation settings apply to a turn.
#[derive(Debug, Clone)]
pub struct Role {
    pub name: String,
    pub model: Model,
}

impl Role {
    pub fn name(&self) -> (r: &str)
        ensures
            r@ == self.name@,
    {
        self.name.as_str()
    }

    pub fn model(&self) -> (r: &Model)
        ensures
            *r == self.model,
    {
        &self.model
    }

    pub fn duplicate(&self) -> (r: Role)
        ensures
            r == *self,
    {
        Role {
            name: self.name.clone(),
            model: Model {
                name: self.model.name.clone(),
                supports_vision: self.model.supports_vision,
                no_stream: self.model.no_stream,
                no_system_message: self.model.no_system_message,
            },
        }
    }
}

/// The previous turn: what was sent and what came back.
#[derive(Debug, Clone)]
pub struct LastMessage {
    /// The last reply that the previous input itself reused, if any.
    pub input_last_reply: Option<String>,
    pub output: String,
}

/// A snapshot of the ambient configuration, read when an input is built.
#[derive(Debug, Clone)]
pub struct Context {
    pub stream: bool,
    /// The role in effect when no role is given explicitly.
    pub role: Role,
    pub has_session: bool,
    pub has_agent: bool,
    pub last_message: Option<LastMessage>,
}

/// An explicit role opts out of session and agent; otherwise the ambient role
/// applies, with session and agent as the context has them.
pub open spec fn role_resolved(ctx: Context, role: Option<Role>, r: (Role, bool, bool)) -> bool {
    match role {
        Some(v) => r == (v, false, false),
        None => r == (ctx.role, ctx.has_session, ctx.has_agent),
    }
}

pub fn resolve_role(ctx: &Context, role: Option<Role>) -> (r: (Role, bool, bool))
    ensures
        role_resolved(*ctx, role, r),
{
    match role {
        Some(v) => (v, false, false),
        None => (ctx.role.duplicate(), ctx.has_session, ctx.has_agent),
    }
}

/// Where a block of loaded text came from.
#[derive(Debug, Clone, Copy, PartialEq, Eq)]
pub enum BlockKind {
    Cmd,
    File,
    Url,
}

pub open spec fn kind_label(k: BlockKind) -> Seq<char> {
    match k {
        BlockKind::Cmd => "CMD"@,
        BlockKind::File => "FILE"@,
        BlockKind::Url => "URL"@,
    }
}

impl BlockKind {
    pub fn label(&self) -> (r: &'static str)
        ensures
            r@ == kind_label(*self),
    {
        match self {
            BlockKind::Cmd => "CMD",
            BlockKind::File => "FILE",
            BlockKind::Url => "URL",
        }
    }
}

/// Text loaded from one command, file or URL.
#[derive(Debug, Clone)]
pub struct TextBlock {
    pub kind: BlockKind,
    pub path: String,
    pub contents: String,
}

pub open spec fn block_spec(kind: BlockKind, path: Seq<char>, contents: Seq<char>) -> Seq<char> {
    "\n============ "@ + kind_label(kind) + ": "@ + path + " ============\n"@ + contents
}

pub open spec fn blocks_view(b: Seq<TextBlock>) -> Seq<Seq<char>> {
    b.map_values(|t: TextBlock| block_spec(t.kind, t.path@, t.contents@))
}

/// The references of an invocation, classified, with what is kept of them for
/// reconstruction.
#[derive(Debug, Clone)]
pub struct LoadPlan {
    /// Every reference, classified, in the order given.
    pub references: Vec<Reference>,
    /// The references as they are shown again, one per reference: a local path
    /// in absolute form where that can be computed.
    pub raw_paths: Vec<String>,
    /// Whether the sentinel asked for the last reply.
    pub with_last_reply: bool,
}

pub open spec fn home_view(home: Option<String>) -> Option<Seq<char>> {
    opt_view(home)
}

impl LoadPlan {
    /// Classifies each reference; `home` expands a leading `~/`.
    pub fn new(paths: &Vec<String>, home: &Option<String>) -> (r: LoadPlan)
        ensures
            r.references@.len() == paths@.len(),
            forall|i: int| 0 <= i < paths@.len() ==> (#[trigger] r.references@[i])@ == classify_spec(paths@[i]@, home_view(*home)),
            r.with_last_reply <==> exists|i: int| 0 <= i < paths@.len() && (#[trigger] r.references@[i]) is Sentinel,
            r.raw_paths@.len() == paths@.len(),
            forall|i: int| 0 <= i < paths@.len() && !((#[trigger] r.references@[i]) is LocalPath) ==> r.raw_paths@[i]@
                == paths@[i]@,
    {
        let mut references: Vec<Reference> = Vec::new();
        let mut raw_paths: Vec<String> = Vec::new();
        let mut with_last_reply = false;
        let mut i: usize = 0;
        while i < paths.len()
            invariant
                i <= paths@.len(),
                references@.len() == i,
                raw_paths@.len() == i,
                forall|j: int| 0 <= j < i ==> (#[trigger] references@[j])@ == classify_spec(paths@[j]@, home_view(*home)),
                with_last_reply <==> exists|j: int| 0 <= j < i && (#[trigger] references@[j]) is Sentinel,
                forall|j: int| 0 <= j < i && !((#[trigger] references@[j]) is LocalPath) ==> raw_paths@[j]@
                    == paths@[j]@,
            decreases paths@.len() - i,
        {
            let p = &paths[i];
            let r = classify_reference(p.as_str(), home);
            let ghost before = raw_paths@;
            let ghost wl0 = with_last_reply;
            match &r {
                Reference::LocalPath(v) => {
                    match absolutize_path(v.as_str()) {
                        Some(a) => raw_paths.push(a),
                        None => raw_paths.push(v.clone()),
                    }
                },
                Reference::Sentinel => {
                    with_last_reply = true;
                    raw_paths.push(p.clone());
                },
                _ => {
                    raw_paths.push(p.clone());
                },
            }
            proof {
                if !(r is LocalPath) {
                    assert(raw_paths@ == before.push(paths@[i as int]));
                }
            }
            let ghost refs_before = references@;
            references.push(r);
            proof {
                assert(references@ == refs_before.push(r));
                assert(references@[i as int] == r);
                if r is Sentinel {
                    assert(references@[i as int] is Sentinel);
                }
                assert(forall|j: int| 0 <= j < i ==> references@[j] == refs_before[j]);
                assert(with_last_reply == (wl0 || r is Sentinel));
                if wl0 {
                    let j = choose|j: int| 0 <= j < i && (#[trigger] refs_before[j]) is Sentinel;
                    assert(references@[j] is Sentinel);
                }
                if !with_last_reply {
                    assert forall|j: int| 0 <= j < i + 1 implies !((#[trigger] references@[j]) is Sentinel) by {
                        if j < i {
                            assert(references@[j] == refs_before[j]);
                        }
                    }
                }
                assert forall|j: int| 0 <= j < i + 1 && !((#[trigger] references@[j]) is LocalPath) implies raw_paths@[j]@
                    == paths@[j]@ by {
                    if j < i {
                        assert(references@[j] == refs_before[j]);
                        assert(raw_paths@[j] == before[j]);
                    }
                }
            }
            i = i + 1;
        }
        LoadPlan { references, raw_paths, with_last_reply }
    }
}

/// What the references of a plan gave, in reference order.
#[derive(Debug, Clone)]
pub struct Loaded {
    pub files: Vec<TextBlock>,
    pub medias: Medias,
}

impl Loaded {
    pub open spec fn wf(&self) -> bool {
        self.medias.wf()
    }

    pub fn new() -> (r: Loaded)
        ensures
            r.wf(),
            r.files@.len() == 0,
            r.medias@.medias.len() == 0,
            r.medias@.table.len() == 0,
    {
        Loaded { files: Vec::new(), medias: Medias::new() }
    }

    /// Records what a shell command gave: its output as a block when it
    /// succeeded; otherwise an error with its captured error output, or its
    /// standard output where the error output is empty.
    pub fn add_command_output(&mut self, command: String, success: bool, stdout: String, stderr: String) -> (r:
        Result<(), InputError>)
        ensures
            success ==> r is Ok && final(self).files@ == old(self).files@.push(
                TextBlock { kind: BlockKind::Cmd, path: command, contents: stdout },
            ),
            !success ==> r == Err::<(), InputError>(
                InputError::CommandFailed {
                    command,
                    output: if stderr@.len() > 0 {
                        stderr
                    } else {
                        stdout
                    },
                },
            ),
            final(self).medias == old(self).medias,
    {
        if !success {
            let output = if stderr.as_str().unicode_len() > 0 {
                stderr
            } else {
                stdout
            };
            return Err(InputError::CommandFailed { command, output });
        }
        self.files.push(TextBlock { kind: BlockKind::Cmd, path: command, contents: stdout });
        Ok(())
    }

    /// Records the text loaded from a local file.
    pub fn add_file_text(&mut self, path: String, contents: String)
        ensures
            final(self).files@ == old(self).files@.push(TextBlock { kind: BlockKind::File, path, contents }),
            final(self).medias == old(self).medias,
    {
        self.files.push(TextBlock { kind: BlockKind::File, path, contents });
    }

    /// Records an image file from the bytes read from it.
    pub fn add_image_file(&mut self, path: String, bytes: &[u8]) -> (r: Result<(), InputError>)
        requires
            old(self).wf(),
        ensures
            final(self).wf(),
            final(self).files == old(self).files,
            r is Err <==> mime_of_path(path@) is None,
            r is Err ==> final(self).medias == old(self).medias,
            r is Ok ==> final(self).medias@ == medias_added(
                old(self).medias@,
                path@,
                data_url_spec(mime_of_path(path@)->Some_0, bytes@),
            ),
    {
        match read_media_to_data_url(path.as_str(), bytes) {
            Ok(u) => {
                self.medias.add(path, u);
                Ok(())
            },
            Err(e) => Err(e),
        }
    }

    /// Records what a URL gave: a media payload, or text.
    pub fn add_url(&mut self, url: String, contents: String, is_media: bool)
        requires
            old(self).wf(),
        ensures
            final(self).wf(),
            is_media ==> final(self).files == old(self).files && final(self).medias@ == medias_added(
                old(self).medias@,
                url@,
                contents@,
            ),
            !is_media ==> final(self).medias == old(self).medias && final(self).files@ == old(self).files@.push(
                TextBlock { kind: BlockKind::Url, path: url, contents },
            ),
    {
        if is_media {
            self.medias.add(url, contents);
        } else {
            self.files.push(TextBlock { kind: BlockKind::Url, path: url, contents });
        }
    }
}

/// The reply the sentinel stands for: the last output, or where that is empty,
/// the reply the last input itself reused.
pub open spec fn last_reply_spec(last: Option<LastMessage>) -> Option<Seq<char>> {
    match last {
        None => None,
        Some(m) => if m.output@.len() > 0 {
            Some(m.output@)
        } else {
            opt_view(m.input_last_reply)
        },
    }
}

/// The segments of an assembled text, in order.
pub open spec fn segments_spec(raw_text: Seq<char>, last_reply: Option<Seq<char>>, files: Seq<TextBlock>) -> Seq<Seq<char>> {
    (if raw_text.len() > 0 {
        seq![raw_text]
    } else {
        Seq::empty()
    }) + (match last_reply {
        Some(v) => seq!["\n"@ + v + "\n"@],
        None => Seq::empty(),
    }) + blocks_view(files)
}

pub open spec fn assembled_text(raw_text: Seq<char>, last_reply: Option<Seq<char>>, files: Seq<TextBlock>) -> Seq<char> {
    join_spec(segments_spec(raw_text, last_reply, files), "\n"@)
}

pub struct RoleView {
    pub name: Seq<char>,
    pub model: Model,
}

/// What an input holds, over plain values.
pub struct InputView {
    pub text: Seq<char>,
    pub raw_text: Seq<char>,
    pub raw_paths: Seq<Seq<char>>,
    pub patched_text: Option<Seq<char>>,
    pub last_reply: Option<Seq<char>>,
    pub continue_output: Option<Seq<char>>,
    pub regenerate: bool,
    pub medias: Seq<Seq<char>>,
    pub table: Seq<(Seq<char>, Seq<char>)>,
    pub tool_calls: Option<MessageContentToolCalls>,
    pub rag_name: Option<Seq<char>>,
    pub role: Role,
    pub with_session: bool,
    pub with_agent: bool,
}

/// A prompt input for one turn.
#[derive(Debug, Clone)]
pub struct Input {
    text: String,
    raw_text: String,
    raw_paths: Vec<String>,
    patched_text: Option<String>,
    last_reply: Option<String>,
    continue_output: Option<String>,
    regenerate: bool,
    medias: Medias,
    tool_calls: Option<MessageContentToolCalls>,
    rag_name: Option<String>,
    role: Role,
    with_session: bool,
    with_agent: bool,
}

/// The text every consumer sees: the patched text where there is one.
pub open spec fn text_spec(v: InputView) -> Seq<char> {
    match v.patched_text {
        Some(t) => t,
        None => v.text,
    }
}

/// The invocation as the user wrote it: `.file <refs> -- <text>`, each part only
/// where it has something.
pub open spec fn raw_spec(text: Seq<char>, paths: Seq<Seq<char>>) -> Seq<char> {
    let head = if paths.len() > 0 {
        seq![".file"@] + paths
    } else {
        Seq::empty()
    };
    let tail = if text.len() > 0 {
        if paths.len() > 0 {
            seq!["--"@, text]
        } else {
            seq![text]
        }
    } else {
        Seq::empty()
    };
    join_spec(head + tail, " "@)
}

/// The input as shown to a person: media as the references they came from.
pub open spec fn render_spec(v: InputView) -> Seq<char> {
    if v.medias.len() == 0 {
        text_spec(v)
    } else {
        ".file "@ + join_spec(v.medias.map_values(|u: Seq<char>| resolve_spec(v.table, u)), " "@) + (if text_spec(
            v,
        ).len() == 0 {
            Seq::empty()
        } else {
            " -- "@ + text_spec(v)
        })
    }
}

pub open spec fn text_part_is(p: MessageContentPart, t: Seq<char>) -> bool {
    match p {
        MessageContentPart::Text { text } => text@ == t,
        _ => false,
    }
}

pub open spec fn image_part_is(p: MessageContentPart, u: Seq<char>) -> bool {
    match p {
        MessageContentPart::ImageUrl { url } => url@ == u,
        _ => false,
    }
}

/// The content sent for the input: plain text without media; with media, the
/// text first (where it is not empty), then each payload.
pub open spec fn message_content_spec(v: InputView, r: MessageContent) -> bool {
    if v.medias.len() == 0 {
        r matches MessageContent::Text(t) && t@ == text_spec(v)
    } else {
        if text_spec(v).len() > 0 {
            r matches MessageContent::Array(list) && list@.len() == v.medias.len() + 1 && text_part_is(
                list@[0],
                text_spec(v),
            ) && forall|i: int| 0 <= i < v.medias.len() ==> image_part_is(#[trigger] list@[i + 1], v.medias[i])
        } else {
            r matches MessageContent::Array(list) && list@.len() == v.medias.len() && forall|i: int|
                0 <= i < v.medias.len() ==> image_part_is(#[trigger] list@[i], v.medias[i])
        }
    }
}

impl View for Input {
    type V = InputView;

    closed spec fn view(&self) -> InputView {
        InputView {
            text: self.text@,
            raw_text: self.raw_text@,
            raw_paths: strings_view(self.raw_paths@),
            patched_text: opt_view(self.patched_text),
            last_reply: opt_view(self.last_reply),
            continue_output: opt_view(self.continue_output),
            regenerate: self.regenerate,
            medias: self.medias@.medias,
            table: self.medias@.table,
            tool_calls: self.tool_calls,
            rag_name: opt_view(self.rag_name),
            role: self.role,
            with_session: self.with_session,
            with_agent: self.with_agent,
        }
    }
}

/// Who composes the messages of a turn.
#[derive(Debug, Clone, Copy, PartialEq, Eq)]
pub enum Composition {
    /// The session, with its history and system message.
    Session,
    /// The role alone, without history.
    RoleOnly,
}

/// The request handed to the transport: the rendered messages and the streaming flag.
#[derive(Debug, Clone)]
pub struct ChatCompletionsData {
    pub messages: Vec<Message>,
    /// The tools offered to the model, where any are.
    pub functions: Option<Vec<FunctionDeclaration>>,
    pub stream: bool,
}

/// The messages of a turn: those composed by the session or the role, then one
/// assistant message with the pending tool results, where there are any.
pub open spec fn messages_spec(v: InputView, composed: Seq<Message>, r: Seq<Message>) -> bool {
    match v.tool_calls {
        None => r == composed,
        Some(tc) => r.len() == composed.len() + 1 && r.subrange(0, composed.len() as int) == composed
            && r.last().role == MessageRole::Assistant && (r.last().content matches MessageContent::ToolCalls(t)
            && t.tool_results@ == tc.tool_results@ && t.text == tc.text),
    }
}

/// The messages of a request for `model`.
pub open spec fn request_messages_spec(v: InputView, model: &Model, composed: Seq<Message>, r: Seq<Message>) -> bool {
    exists|built: Seq<Message>|
        #![trigger messages_spec(v, composed, built)]
        messages_spec(v, composed, built) && if model.no_system_message {
            system_patched(built, r)
        } else {
            r == built
        }
}

fn block_text(b: &TextBlock) -> (r: String)
    ensures
        r@ == block_spec(b.kind, b.path@, b.contents@),
{
    let mut s = String::from_str("\n============ ");
    s.append(b.kind.label());
    s.append(": ");
    s.append(b.path.as_str());
    s.append(" ============\n");
    s.append(b.contents.as_str());
    s
}

impl Input {
    /// Media table well-formed; a patched text always has the name of its source.
    pub open spec fn wf(&self) -> bool {
        &&& medias_wf(self@.medias, self@.table)
        &&& (self@.patched_text is Some <==> self@.rag_name is Some)
    }

    /// An input of plain text, with no references.
    pub fn from_str(ctx: &Context, text: &str, role: Option<Role>) -> (r: Input)
        ensures
            r.wf(),
            r@.text == text@,
            r@.raw_text == text@,
            r@.raw_paths.len() == 0,
            r@.patched_text is None,
            r@.last_reply is None,
            r@.continue_output is None,
            !r@.regenerate,
            r@.medias.len() == 0,
            r@.table.len() == 0,
            r@.tool_calls is None,
            role_resolved(*ctx, role, (r@.role, r@.with_session, r@.with_agent)),
    {
        let (role, with_session, with_agent) = resolve_role(ctx, role);
        let m = Medias::new();
        let r = Input {
            text: String::from_str(text),
            raw_text: String::from_str(text),
            raw_paths: Vec::new(),
            patched_text: None,
            last_reply: None,
            continue_output: None,
            regenerate: false,
            medias: m,
            tool_calls: None,
            rag_name: None,
            role,
            with_session,
            with_agent,
        };
        assert(r@.raw_paths =~= Seq::<Seq<char>>::empty());
        r
    }

    /// Assembles an input from the free text and what the references of `plan`
    /// gave. Where the sentinel was used, the last reply of `ctx` is taken in; if
    /// there is none and nothing else was loaded, the input is refused.
    pub fn from_loaded(ctx: &Context, raw_text: &str, plan: LoadPlan, loaded: Loaded, role: Option<Role>) -> (r:
        Result<Input, InputError>)
        requires
            loaded.wf(),
        ensures
            ({
                let lr = if plan.with_last_reply {
                    last_reply_spec(ctx.last_message)
                } else {
                    None
                };
                &&& r is Err <==> (plan.with_last_reply && lr is None && loaded.files@.len() == 0
                    && loaded.medias@.medias.len() == 0)
                &&& r is Err ==> r->Err_0 is NoLastReply
                &&& r matches Ok(inp) ==> {
                    &&& inp.wf()
                    &&& inp@.text == assembled_text(raw_text@, lr, loaded.files@)
                    &&& inp@.raw_text == raw_text@
                    &&& inp@.raw_paths == strings_view(plan.raw_paths@)
                    &&& inp@.last_reply == lr
                    &&& inp@.patched_text is None
                    &&& inp@.continue_output is None
                    &&& !inp@.regenerate
                    &&& inp@.medias == loaded.medias@.medias
                    &&& inp@.table == loaded.medias@.table
                    &&& inp@.tool_calls is None
                    &&& role_resolved(*ctx, role, (inp@.role, inp@.with_session, inp@.with_agent))
                }
            }),
    {
        let mut texts: Vec<String> = Vec::new();
        if raw_text.unicode_len() > 0 {
            texts.push(String::from_str(raw_text));
        }
        let mut last_reply: Option<String> = None;
        if plan.with_last_reply {
            match &ctx.last_message {
                Some(m) => {
                    if m.output.as_str().unicode_len() > 0 {
                        last_reply = Some(m.output.clone());
                    } else {
                        match &m.input_last_reply {
                            Some(v) => {
                                last_reply = Some(v.clone());
                            },
                            None => {},
                        }
                    }
                },
                None => {},
            }
            match &last_reply {
                Some(v) => {
                    let mut t = String::from_str("\n");
                    t.append(v.as_str());
                    t.append("\n");
                    texts.push(t);
                },
                None => {
                    if loaded.files.len() == 0 && loaded.medias.medias().len() == 0 {
                        return Err(InputError::NoLastReply);
                    }
                },
            }
        }
        let ghost lr = opt_view(last_reply);
        let ghost head = strings_view(texts@);
        proof {
            assert(head =~= segments_spec(raw_text@, lr, Seq::empty()));
        }
        let mut i: usize = 0;
        while i < loaded.files.len()
            invariant
                i <= loaded.files@.len(),
                strings_view(texts@) == head + blocks_view(loaded.files@.subrange(0, i as int)),
            decreases loaded.files@.len() - i,
        {
            let b = block_text(&loaded.files[i]);
            let ghost before = texts@;
            texts.push(b);
            proof {
                lemma_strings_view_push(before, b);
                assert(blocks_view(loaded.files@.subrange(0, i as int + 1)) =~= blocks_view(
                    loaded.files@.subrange(0, i as int),
                ).push(b@));
            }
            i = i + 1;
        }
        assert(loaded.files@.subrange(0, loaded.files@.len() as int) =~= loaded.files@);
        assert(strings_view(texts@) =~= segments_spec(raw_text@, lr, loaded.files@));
        let text = join_strings(&texts, "\n");
        let (role, with_session, with_agent) = resolve_role(ctx, role);
        Ok(Input {
            text,
            raw_text: String::from_str(raw_text),
            raw_paths: plan.raw_paths,
            patched_text: None,
            last_reply,
            continue_output: None,
            regenerate: false,
            medias: loaded.medias,
            tool_calls: None,
            rag_name: None,
            role,
            with_session,
            with_agent,
        })
    }

    /// Folds tool results into the pending ones: they follow those already
    /// there, and `output` becomes the combined text.
    pub fn merge_tool_results(self, output: String, tool_results: Vec<ToolResult>) -> (r: Self)
        requires
            self.wf(),
        ensures
            r.wf(),
            r@.tool_calls matches Some(tc) && tc.text@ == output@ && tc.tool_results@ == (match self@.tool_calls {
                Some(old_tc) => old_tc.tool_results@,
                None => Seq::empty(),
            }) + tool_results@,
            r@ == (InputView { tool_calls: r@.tool_calls, ..self@ }),
    {
        let mut this = self;
        let next = match this.tool_calls.take() {
            Some(mut tc) => {
                tc.merge(tool_results, output);
                tc
            },
            None => {
                let tc = MessageContentToolCalls::new(tool_results, output);
                assert(tc.tool_results@ =~= Seq::empty() + tool_results@);
                tc
            },
        };
        this.tool_calls = Some(next);
        this
    }

    /// Appends the pending tool results, if any, to the messages that the session
    /// or the role composed for this input (see `composition`).
    pub fn build_messages(&self, composed: Vec<Message>) -> (r: Vec<Message>)
        ensures
            messages_spec(self@, composed@, r@),
    {
        let mut messages = composed;
        match &self.tool_calls {
            Some(tc) => {
                let ghost before = messages@;
                messages.push(Message::new(MessageRole::Assistant, MessageContent::ToolCalls(tc.duplicate())));
                assert(messages@.subrange(0, before.len() as int) =~= before);
            },
            None => {},
        }
        messages
    }

    /// Refuses media for a model that cannot take images.
    pub fn check_vision(&self, model: &Model) -> (r: Result<(), InputError>)
        ensures
            r is Err <==> (self@.medias.len() > 0 && !model.supports_vision),
            r is Err ==> r == Err::<(), InputError>(InputError::VisionUnsupported),
    {
        if self.medias.medias().len() > 0 && !model.supports_vision {
            Err(InputError::VisionUnsupported)
        } else {
            Ok(())
        }
    }

    /// The messages sent to `model`: those of `build_messages`, with a leading
    /// system message folded in where the model takes none.
    pub fn request_messages(&self, model: &Model, composed: Vec<Message>) -> (r: Vec<Message>)
        ensures
            request_messages_spec(self@, model, composed@, r@),
    {
        let messages = self.build_messages(composed);
        if model.no_system_message {
            patch_system_message(messages)
        } else {
            messages
        }
    }

    /// The request for `model`: refused when media is attached and the model
    /// cannot take images; else refused with the guard's message where the
    /// model's input-token guard rejected the request messages (`guard` is its
    /// verdict on `request_messages`); else those messages, the tools offered
    /// and the streaming flag.
    pub fn prepare_completion_data(
        &self,
        model: &Model,
        stream: bool,
        composed: Vec<Message>,
        guard: Result<(), String>,
        functions: Option<Vec<FunctionDeclaration>>,
    ) -> (r: Result<ChatCompletionsData, InputError>)
        ensures
            (self@.medias.len() > 0 && !model.supports_vision) ==> r == Err::<ChatCompletionsData, InputError>(
                InputError::VisionUnsupported,
            ),
            !(self@.medias.len() > 0 && !model.supports_vision) && guard is Err ==> r
                == Err::<ChatCompletionsData, InputError>(InputError::TokenLimitExceeded { message: guard->Err_0 }),
            r is Ok <==> !(self@.medias.len() > 0 && !model.supports_vision) && guard is Ok,
            r matches Ok(d) ==> d.stream == stream && d.functions == functions && request_messages_spec(
                self@,
                model,
                composed@,
                d.messages@,
            ),
    {
        match self.check_vision(model) {
            Err(e) => Err(e),
            Ok(()) => match guard {
                Err(message) => Err(InputError::TokenLimitExceeded { message }),
                Ok(()) => {
                    let messages = self.request_messages(model, composed);
                    Ok(ChatCompletionsData { messages, functions, stream })
                },
            },
        }
    }

    /// Who composes the messages of this turn: the active session, where the
    /// input takes part in one and a session is active, else the role alone.
    pub fn composition(&self, session_active: bool) -> (r: Composition)
        ensures
            r is Session <==> (self@.with_session && session_active),
    {
        if self.with_session && session_active {
            Composition::Session
        } else {
            Composition::RoleOnly
        }
    }

    /// The text to search a retrieval source with: the input's own text, where
    /// it is not empty.
    pub fn embedding_query(&self) -> (r: Option<String>)
        ensures
            r is None <==> self@.text.len() == 0,
            r matches Some(q) ==> q@ == self@.text,
    {
        if self.text.as_str().unicode_len() == 0 {
            None
        } else {
            Some(self.text.clone())
        }
    }

    pub fn is_empty(&self) -> (r: bool)
        ensures
            r == (self@.text.len() == 0 && self@.medias.len() == 0),
    {
        self.text.as_str().unicode_len() == 0 && self.medias.medias().len() == 0
    }

    /// The table from each distinct payload's hash to the reference it came from.
    pub fn data_urls(&self) -> (r: Vec<(String, String)>)
        ensures
            crate::media::table_view(r) == self@.table,
    {
        let du = self.medias.data_urls();
        let mut v: Vec<(String, String)> = Vec::new();
        let mut i: usize = 0;
        while i < du.len()
            invariant
                i <= du@.len(),
                v@ == du@.subrange(0, i as int),
            decreases du@.len() - i,
        {
            let e = &du[i];
            v.push((e.0.clone(), e.1.clone()));
            assert(v@ =~= du@.subrange(0, i as int + 1));
            i = i + 1;
        }
        assert(v@ =~= du@);
        v
    }

    pub fn medias(&self) -> (r: &Vec<String>)
        ensures
            strings_view(r@) == self@.medias,
    {
        self.medias.medias()
    }

    pub fn tool_calls(&self) -> (r: &Option<MessageContentToolCalls>)
        ensures
            *r == self@.tool_calls,
    {
        &self.tool_calls
    }

    pub fn text(&self) -> (r: String)
        ensures
            r@ == text_spec(self@),
    {
        match &self.patched_text {
            Some(t) => t.clone(),
            None => self.text.clone(),
        }
    }

    /// Drops the patched text, and with it the name of its source.
    pub fn clear_patch(&mut self)
        requires
            old(self).wf(),
        ensures
            final(self).wf(),
            final(self)@ == (InputView { patched_text: None, rag_name: None, ..old(self)@ }),
    {
        self.patched_text = None;
        self.rag_name = None;
    }

    pub fn set_text(&mut self, text: String)
        ensures
            final(self)@ == (InputView { text: text@, ..old(self)@ }),
    {
        self.text = text;
    }

    /// Streaming applies when the configuration asks for it and the model allows it.
    pub fn stream(&self, ctx: &Context) -> (r: bool)
        ensures
            r == (ctx.stream && !self@.role.model.no_stream),
    {
        ctx.stream && !self.role.model.no_stream
    }

    pub fn continue_output(&self) -> (r: Option<&str>)
        ensures
            r matches Some(s) ==> self@.continue_output == Some(s@),
            r is None ==> self@.continue_output is None,
    {
        match &self.continue_output {
            Some(s) => Some(s.as_str()),
            None => None,
        }
    }

    /// Appends streamed output to what was gathered so far.
    pub fn set_continue_output(&mut self, output: &str)
        ensures
            final(self)@ == (InputView {
                continue_output: Some(
                    match old(self)@.continue_output {
                        Some(v) => v + output@,
                        None => output@,
                    },
                ),
                ..old(self)@
            }),
    {
        let next = match self.continue_output.take() {
            Some(v) => v.concat(output),
            None => String::from_str(output),
        };
        self.continue_output = Some(next);
    }

    pub fn regenerate(&self) -> (r: bool)
        ensures
            r == self@.regenerate,
    {
        self.regenerate
    }

    /// Marks the input as a re-issued turn; the ambient role is taken over only
    /// where it has the same name as the input's role.
    pub fn set_regenerate(&mut self, ctx: &Context)
        ensures
            final(self)@ == (InputView {
                regenerate: true,
                role: if ctx.role.name@ == old(self)@.role.name@ {
                    ctx.role
                } else {
                    old(self)@.role
                },
                ..old(self)@
            }),
    {
        if ctx.role.name == self.role.name {
            self.role = ctx.role.duplicate();
        }
        self.regenerate = true;
    }

    /// Installs the text that retrieval produced from `rag_name`.
    pub fn apply_rag(&mut self, rag_name: String, patched_text: String)
        requires
            old(self).wf(),
        ensures
            final(self).wf(),
            final(self)@ == (InputView {
                patched_text: Some(patched_text@),
                rag_name: Some(rag_name@),
                ..old(self)@
            }),
    {
        self.patched_text = Some(patched_text);
        self.rag_name = Some(rag_name);
    }

    pub fn rag_name(&self) -> (r: Option<&str>)
        ensures
            r matches Some(s) ==> self@.rag_name == Some(s@),
            r is None ==> self@.rag_name is None,
    {
        match &self.rag_name {
            Some(s) => Some(s.as_str()),
            None => None,
        }
    }

    pub fn role(&self) -> (r: &Role)
        ensures
            *r == self@.role,
    {
        &self.role
    }

    pub fn with_agent(&self) -> (r: bool)
        ensures
            r == self@.with_agent,
    {
        self.with_agent
    }

    /// The active session, where this input takes part in one.
    pub fn session<'a, S>(&self, session: &'a Option<S>) -> (r: Option<&'a S>)
        ensures
            self@.with_session && session is Some ==> (r is Some && *(r->Some_0) == session->Some_0),
            !(self@.with_session && session is Some) ==> r is None,
    {
        if self.with_session {
            match session {
                Some(s) => Some(s),
                None => None,
            }
        } else {
            None
        }
    }

    /// The active session for changes, where this input takes part in one.
    pub fn session_mut<'a, S>(&self, session: &'a mut Option<S>) -> (r: Option<&'a mut S>)
        ensures
            r is Some <==> (self@.with_session && *old(session) is Some),
    {
        if self.with_session {
            session.as_mut()
        } else {
            None
        }
    }

    /// A one-line summary of the input's own text, within the width budget.
    pub fn summary(&self) -> (r: String)
        ensures
            summary_spec(self@.text, r@),
    {
        summary_of(self.text.as_str())
    }

    /// The invocation as written: references behind `.file`, then `--` and the text.
    pub fn raw(&self) -> (r: String)
        ensures
            r@ == raw_spec(self@.raw_text, self@.raw_paths),
    {
        let mut segments: Vec<String> = Vec::new();
        let has_paths = self.raw_paths.len() > 0;
        if has_paths {
            segments.push(String::from_str(".file"));
        }
        let mut i: usize = 0;
        while i < self.raw_paths.len()
            invariant
                i <= self.raw_paths@.len(),
                has_paths == (self.raw_paths@.len() > 0),
                strings_view(segments@) == (if has_paths {
                    seq![".file"@]
                } else {
                    Seq::empty()
                }) + strings_view(self.raw_paths@.subrange(0, i as int)),
            decreases self.raw_paths@.len() - i,
        {
            let ghost seg_before = segments@;
            segments.push(self.raw_paths[i].clone());
            proof {
                lemma_strings_view_push(seg_before, self.raw_paths@[i as int]);
                assert(self.raw_paths@.subrange(0, i as int + 1) == self.raw_paths@.subrange(0, i as int).push(self.raw_paths@[i as int]));
                lemma_strings_view_push(self.raw_paths@.subrange(0, i as int), self.raw_paths@[i as int]);
            }
            assert(strings_view(segments@) =~= (if has_paths {
                seq![".file"@]
            } else {
                Seq::empty()
            }) + strings_view(self.raw_paths@.subrange(0, i as int + 1)));
            i = i + 1;
        }
        assert(self.raw_paths@.subrange(0, self.raw_paths@.len() as int) =~= self.raw_paths@);
        let ghost head = strings_view(segments@);
        if self.raw_text.as_str().unicode_len() > 0 {
            if has_paths {
                segments.push(String::from_str("--"));
            }
            segments.push(self.raw_text.clone());
        }
        proof {
            let paths = self@.raw_paths;
            let text = self@.raw_text;
            if text.len() > 0 {
                if paths.len() > 0 {
                    assert(strings_view(segments@) =~= head + seq!["--"@, text]);
                } else {
                    assert(strings_view(segments@) =~= head + seq![text]);
                }
            } else {
                assert(strings_view(segments@) =~= head + Seq::<Seq<char>>::empty());
            }
        }
        join_strings(&segments, " ")
    }

    /// The input as shown to a person: each payload as its reference, then the text.
    pub fn render(&self) -> (r: String)
        requires
            self.wf(),
        ensures
            r@ == render_spec(self@),
    {
        let text = self.text();
        let ms = self.medias.medias();
        let du = self.medias.data_urls();
        if ms.len() == 0 {
            return text;
        }
        let mut files: Vec<String> = Vec::new();
        let mut i: usize = 0;
        let ghost resolved = self@.medias.map_values(|u: Seq<char>| resolve_spec(self@.table, u));
        while i < ms.len()
            invariant
                i <= ms@.len(),
                self@.medias == strings_view(ms@),
                table_wf(crate::media::table_view(*du)),
                self@.table == crate::media::table_view(*du),
                resolved == self@.medias.map_values(|u: Seq<char>| resolve_spec(self@.table, u)),
                strings_view(files@) == resolved.subrange(0, i as int),
            decreases ms@.len() - i,
        {
            let f = resolve_data_url(du, ms[i].clone());
            let ghost files_before = files@;
            files.push(f);
            proof {
                lemma_strings_view_push(files_before, f);
                assert(resolved.subrange(0, i as int + 1) =~= resolved.subrange(0, i as int).push(resolved[i as int]));
            }
            i = i + 1;
        }
        assert(resolved.subrange(0, resolved.len() as int) =~= resolved);
        let mut out = String::from_str(".file ");
        let joined = join_strings(&files, " ");
        out.append(joined.as_str());
        if text.as_str().unicode_len() > 0 {
            out.append(" -- ");
            out.append(text.as_str());
        } else {
            assert(out@ =~= out@ + Seq::<char>::empty());
        }
        out
    }

    /// The content of the user message for this input.
    pub fn message_content(&self) -> (r: MessageContent)
        ensures
            message_content_spec(self@, r),
    {
        let ms = self.medias.medias();
        if ms.len() == 0 {
            return MessageContent::Text(self.text());
        }
        let text = self.text();
        let mut list: Vec<MessageContentPart> = Vec::new();
        let has_text = text.as_str().unicode_len() > 0;
        let ghost off: int = if has_text { 1 } else { 0 };
        if has_text {
            list.push(MessageContentPart::Text { text });
        }
        let mut i: usize = 0;
        while i < ms.len()
            invariant
                i <= ms@.len(),
                self@.medias == strings_view(ms@),
                has_text == (text_spec(self@).len() > 0),
                off == (if has_text { 1int } else { 0int }),
                list@.len() == i + off,
                has_text ==> text_part_is(list@[0], text_spec(self@)),
                forall|j: int| 0 <= j < i ==> image_part_is(#[trigger] list@[j + off], self@.medias[j]),
            decreases ms@.len() - i,
        {
            list.push(MessageContentPart::ImageUrl { url: ms[i].clone() });
            assert(image_part_is(list@[i + off], self@.medias[i as int]));
            i = i + 1;
        }
        proof {
            if has_text {
                assert forall|j: int| 0 <= j < self@.medias.len() implies image_part_is(#[trigger] list@[j + 1], self@.medias[j]) by {
                    assert(image_part_is(list@[j + off], self@.medias[j]));
                }
            } else {
                assert forall|j: int| 0 <= j < self@.medias.len() implies image_part_is(#[trigger] list@[j], self@.medias[j]) by {
                    assert(image_part_is(list@[j + off], self@.medias[j]));
                }
            }
        }
        MessageContent::Array(list)
    }
}

/// Reconstruction: free text alone comes back unchanged; references alone come
/// back behind `.file` with no `--`; both come back as `.file <refs> -- <text>`.
pub proof fn lemma_raw_shapes(text: Seq<char>, paths: Seq<Seq<char>>)
    ensures
        paths.len() == 0 ==> raw_spec(text, paths) == text,
        text.len() == 0 ==> raw_spec(text, paths) == join_spec(
            if paths.len() > 0 {
                seq![".file"@] + paths
            } else {
                Seq::empty()
            },
            " "@,
        ),
        text.len() > 0 && paths.len() > 0 ==> raw_spec(text, paths) == join_spec(
            seq![".file"@] + paths + seq!["--"@, text],
            " "@,
        ),
{
    if paths.len() == 0 {
        if text.len() > 0 {
            assert(Seq::<Seq<char>>::empty() + seq![text] =~= seq![text]);
        } else {
            assert(Seq::<Seq<char>>::empty() + Seq::<Seq<char>>::empty() =~= Seq::<Seq<char>>::empty());
        }
    }
    if text.len() == 0 {
        let head = if paths.len() > 0 {
            seq![".file"@] + paths
        } else {
            Seq::empty()
        };
        assert(head + Seq::<Seq<char>>::empty() =~= head);
    }
}

/// Display form: without media it is the text; with media and no text it ends
/// with the last reference; with media and text the text follows one ` -- `.
pub proof fn lemma_render_shapes(v: InputView)
    ensures
        v.medias.len() == 0 ==> render_spec(v) == text_spec(v),
        v.medias.len() > 0 && text_spec(v).len() == 0 ==> render_spec(v) == ".file "@ + join_spec(
            v.medias.map_values(|u: Seq<char>| resolve_spec(v.table, u)),
            " "@,
        ),
        v.medias.len() > 0 && text_spec(v).len() > 0 ==> render_spec(v) == ".file "@ + join_spec(
            v.medias.map_values(|u: Seq<char>| resolve_spec(v.table, u)),
            " "@,
        ) + " -- "@ + text_spec(v),
{
    let files = join_spec(v.medias.map_values(|u: Seq<char>| resolve_spec(v.table, u)), " "@);
    assert(".file "@ + files + Seq::<char>::empty() =~= ".file "@ + files);
    assert(".file "@ + files + (" -- "@ + text_spec(v)) =~= ".file "@ + files + " -- "@ + text_spec(v));
}

/// Message content: without media, the text alone; with media and text, the
/// text first and then every payload in order; with media and no text, the
/// payloads alone, in order.
pub proof fn lemma_message_content_order(v: InputView, r: MessageContent)
    requires
        message_content_spec(v, r),
    ensures
        v.medias.len() == 0 ==> (r is Text && (r->Text_0)@ == text_spec(v)),
        v.medias.len() > 0 ==> r is Array,
        v.medias.len() > 0 && text_spec(v).len() > 0 ==> {
            &&& (r->Array_0)@.len() == v.medias.len() + 1
            &&& text_part_is((r->Array_0)@[0], text_spec(v))
            &&& forall|i: int| 0 <= i < v.medias.len() ==> image_part_is(#[trigger] (r->Array_0)@[i + 1], v.medias[i])
        },
        v.medias.len() > 0 && text_spec(v).len() == 0 ==> {
            &&& (r->Array_0)@.len() == v.medias.len()
            &&& forall|i: int| 0 <= i < v.medias.len() ==> image_part_is(#[trigger] (r->Array_0)@[i], v.medias[i])
        },
{
}

} // verus!
