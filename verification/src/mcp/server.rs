//! The server side: building the registries, which tools a deployment offers,
//! routing a request's method, and the errors a request can be answered with.
use vstd::prelude::*;
use crate::mcp::error::{code_number, Error, ErrorCode};
use crate::mcp::registry::{
    allows, key_pos, keys, keys_unique, lookup, marked, put, Catalog, ExposurePolicy, PromptDescriptor,
    ResourceDescriptor, ToolDescriptor,
};
use crate::mcp::protocol::{says, CallToolResult};
use crate::mcp::utilities::{complete_argument, suggestions, Completer};
use crate::text::{concat2, concat3, str_eq, views};

verus! {

/// The name and version a party reports.
#[derive(Debug, Clone, PartialEq, Eq)]
pub struct Implementation {
    pub name: String,
    pub version: String,
}

/// Collects tools, resources and prompts before the server starts.
pub struct ServerBuilder<T, R, P> {
    pub info: Implementation,
    pub instructions: Option<String>,
    pub tools: Catalog<ToolDescriptor<T>>,
    pub resources: Catalog<ResourceDescriptor<R>>,
    pub prompts: Catalog<PromptDescriptor<P>>,
    pub exposure: ExposurePolicy,
    pub completers: Vec<Completer>,
}

/// The server's fixed state: what it offers and to whom.
pub struct ServerContext<T, R, P> {
    pub info: Implementation,
    pub instructions: Option<String>,
    pub tools: Catalog<ToolDescriptor<T>>,
    pub resources: Catalog<ResourceDescriptor<R>>,
    pub prompts: Catalog<PromptDescriptor<P>>,
    pub exposure: ExposurePolicy,
    /// Suggested values for prompt arguments, answered by `completion/complete`.
    pub completers: Vec<Completer>,
}

/// The tools of `s` that `policy` offers, in order.
pub open spec fn exposed<T>(s: Seq<(String, ToolDescriptor<T>)>, policy: ExposurePolicy) -> Seq<
    (String, ToolDescriptor<T>),
>
    decreases s.len(),
{
    if s.len() == 0 {
        Seq::empty()
    } else {
        let rest = exposed(s.drop_last(), policy);
        if allows(policy, s.last().1.exposure) { rest.push(s.last()) } else { rest }
    }
}

proof fn lemma_marked_exposed<T>(s: Seq<(String, ToolDescriptor<T>)>, keep: Seq<bool>, policy: ExposurePolicy)
    requires
        keep.len() == s.len(),
        forall|i: int| 0 <= i < s.len() ==> keep[i] == allows(policy, (#[trigger] s[i]).1.exposure),
    ensures
        marked(s, keep) == exposed(s, policy),
    decreases s.len(),
{
    if s.len() > 0 {
        lemma_marked_exposed(s.drop_last(), keep.drop_last(), policy);
        assert(keep.last() == allows(policy, s[s.len() - 1].1.exposure));
    }
}

impl<T, R, P> ServerBuilder<T, R, P> {
    /// A builder for a server named `name` at `version`: nothing registered, no
    /// instructions, no completers, and only read-only tools offered.
    pub fn new(name: String, version: String) -> (b: ServerBuilder<T, R, P>)
        ensures
            b.info == (Implementation { name, version }),
            b.instructions is None,
            b.tools.wf() && b.tools.entry_list().len() == 0,
            b.resources.wf() && b.resources.entry_list().len() == 0,
            b.prompts.wf() && b.prompts.entry_list().len() == 0,
            b.exposure == ExposurePolicy::ReadOnlyOnly,
            b.completers@.len() == 0,
    {
        ServerBuilder {
            info: Implementation { name, version },
            instructions: None,
            tools: Catalog::new(),
            resources: Catalog::new(),
            prompts: Catalog::new(),
            exposure: ExposurePolicy::ReadOnlyOnly,
            completers: Vec::new(),
        }
    }

    /// Registers suggested values for a prompt argument, after those registered
    /// already.
    pub fn completer(self, c: Completer) -> (b: ServerBuilder<T, R, P>)
        ensures
            b.completers@ == self.completers@.push(c),
            b.exposure == self.exposure,
            b.info == self.info,
            b.instructions == self.instructions,
            b.tools == self.tools,
            b.resources == self.resources,
            b.prompts == self.prompts,
    {
        let mut b = self;
        b.completers.push(c);
        b
    }

    /// Sets which tools are offered.
    pub fn exposure(self, policy: ExposurePolicy) -> (b: ServerBuilder<T, R, P>)
        ensures
            b.exposure == policy,
            b.info == self.info,
            b.instructions == self.instructions,
            b.tools == self.tools,
            b.resources == self.resources,
            b.prompts == self.prompts,
    {
        let mut b = self;
        b.exposure = policy;
        b
    }

    /// Sets the instructions sent to clients.
    pub fn instructions(self, text: String) -> (b: ServerBuilder<T, R, P>)
        ensures
            b.instructions == Some(text),
            b.exposure == self.exposure,
            b.info == self.info,
            b.tools == self.tools,
            b.resources == self.resources,
            b.prompts == self.prompts,
    {
        let mut b = self;
        b.instructions = Some(text);
        b
    }

    /// Registers a tool under its name, replacing one of the same name.
    pub fn tool(self, d: ToolDescriptor<T>) -> (b: ServerBuilder<T, R, P>)
        requires
            self.tools.wf(),
        ensures
            b.tools.wf(),
            b.tools.entry_list() == put(self.tools.entry_list(), d.name, d),
            b.exposure == self.exposure,
            b.info == self.info,
            b.instructions == self.instructions,
            b.resources == self.resources,
            b.prompts == self.prompts,
    {
        let mut b = self;
        let k = d.name.clone();
        b.tools.insert(k, d);
        b
    }

    /// Registers a resource under its URI, replacing one with the same URI.
    pub fn resource(self, d: ResourceDescriptor<R>) -> (b: ServerBuilder<T, R, P>)
        requires
            self.resources.wf(),
        ensures
            b.resources.wf(),
            b.resources.entry_list() == put(self.resources.entry_list(), d.uri, d),
            b.exposure == self.exposure,
            b.info == self.info,
            b.instructions == self.instructions,
            b.tools == self.tools,
            b.prompts == self.prompts,
    {
        let mut b = self;
        let k = d.uri.clone();
        b.resources.insert(k, d);
        b
    }

    /// Registers a prompt under its name, replacing one of the same name.
    pub fn prompt(self, d: PromptDescriptor<P>) -> (b: ServerBuilder<T, R, P>)
        requires
            self.prompts.wf(),
        ensures
            b.prompts.wf(),
            b.prompts.entry_list() == put(self.prompts.entry_list(), d.name, d),
            b.exposure == self.exposure,
            b.info == self.info,
            b.instructions == self.instructions,
            b.tools == self.tools,
            b.resources == self.resources,
    {
        let mut b = self;
        let k = d.name.clone();
        b.prompts.insert(k, d);
        b
    }

    /// The server's state: tools the policy does not offer are dropped here, so
    /// listing and calling see the same tools.
    pub fn build(self) -> (c: ServerContext<T, R, P>)
        requires
            self.tools.wf(),
        ensures
            c.tools.wf(),
            c.tools.entry_list() == exposed(self.tools.entry_list(), self.exposure),
            c.resources == self.resources,
            c.prompts == self.prompts,
            c.info == self.info,
            c.instructions == self.instructions,
            c.exposure == self.exposure,
            c.completers == self.completers,
    {
        let policy = self.exposure;
        let mut keep: Vec<bool> = Vec::new();
        let mut i: usize = 0;
        while i < self.tools.len()
            invariant
                i <= self.tools.entry_list().len(),
                keep@.len() == i,
                forall|q: int| 0 <= q < i ==> keep@[q] == allows(policy, (#[trigger] self.tools.entry_list()[q]).1.exposure),
            decreases self.tools.entry_list().len() - i,
        {
            let e = &self.tools.entries()[i];
            keep.push(e.1.is_allowed_by(policy));
            i = i + 1;
        }
        proof {
            lemma_marked_exposed(self.tools.entry_list(), keep@, policy);
        }
        let tools = self.tools.retain_marked(&keep);
        ServerContext {
            info: self.info,
            instructions: self.instructions,
            tools,
            resources: self.resources,
            prompts: self.prompts,
            exposure: policy,
            completers: self.completers,
        }
    }
}

/// Which capabilities a server announces: tools, resources, prompts and completions
/// when it has any registered, and logging always (`logging/setLevel` is answered).
#[derive(Debug, Clone, Copy, PartialEq, Eq)]
pub struct Capabilities {
    pub tools: bool,
    pub resources: bool,
    pub prompts: bool,
    pub logging: bool,
    pub completions: bool,
}

/// The error answering a call of a tool the server does not offer.
pub open spec fn unknown_tool(name: Seq<char>, e: Error) -> bool {
    e matches Error::Protocol { code, message } && code == code_number(ErrorCode::UnknownTool)
        && message@ == "unknown tool '"@ + name + "'"@
}

/// The error answering a read of a resource the server does not have.
pub open spec fn unknown_resource(uri: Seq<char>, e: Error) -> bool {
    e matches Error::Protocol { code, message } && code == code_number(ErrorCode::InvalidParams)
        && message@ == "unknown resource '"@ + uri + "'"@
}

/// The error answering a request for a prompt the server does not have.
pub open spec fn unknown_prompt(name: Seq<char>, e: Error) -> bool {
    e matches Error::Protocol { code, message } && code == code_number(ErrorCode::InvalidParams)
        && message@ == "unknown prompt '"@ + name + "'"@
}

impl<T, R, P> ServerContext<T, R, P> {
    /// What the server announces.
    pub fn capabilities(&self) -> (c: Capabilities)
        ensures
            c.tools == (self.tools.entry_list().len() > 0),
            c.resources == (self.resources.entry_list().len() > 0),
            c.prompts == (self.prompts.entry_list().len() > 0),
            c.logging,
            c.completions == (self.completers@.len() > 0),
    {
        Capabilities {
            tools: !self.tools.is_empty(),
            resources: !self.resources.is_empty(),
            prompts: !self.prompts.is_empty(),
            logging: true,
            completions: self.completers.len() > 0,
        }
    }

    /// The values suggested for `prompt`'s argument `argument` once `typed` is typed
    /// (see `suggestions`); none for a prompt or argument without a completer.
    pub fn complete(&self, prompt: &str, argument: &str, typed: &str) -> (r: Vec<String>)
        ensures
            views(r@) == suggestions(self.completers@, prompt@, argument@, typed@),
    {
        complete_argument(&self.completers, prompt, argument, typed)
    }

    /// The tool a `tools/call` names, or the error for an unknown tool.
    pub fn tool_for_call(&self, name: &str) -> (r: Result<&ToolDescriptor<T>, Error>)
        ensures
            match lookup(self.tools.entry_list(), name@) {
                Some(d) => r == Ok::<&ToolDescriptor<T>, Error>(&d),
                None => r matches Err(e) && unknown_tool(name@, e),
            },
    {
        match self.tools.get(name) {
            Some(d) => Ok(d),
            None => Err(Error::protocol(ErrorCode::UnknownTool, concat3("unknown tool '", name, "'"))),
        }
    }

    /// The resource a `resources/read` names, or the error for an unknown URI.
    pub fn resource_for_read(&self, uri: &str) -> (r: Result<&ResourceDescriptor<R>, Error>)
        ensures
            match lookup(self.resources.entry_list(), uri@) {
                Some(d) => r == Ok::<&ResourceDescriptor<R>, Error>(&d),
                None => r matches Err(e) && unknown_resource(uri@, e),
            },
    {
        match self.resources.get(uri) {
            Some(d) => Ok(d),
            None => Err(Error::protocol(ErrorCode::InvalidParams, concat3("unknown resource '", uri, "'"))),
        }
    }

    /// The prompt a `prompts/get` names, or the error for an unknown prompt.
    pub fn prompt_for_get(&self, name: &str) -> (r: Result<&PromptDescriptor<P>, Error>)
        ensures
            match lookup(self.prompts.entry_list(), name@) {
                Some(d) => r == Ok::<&PromptDescriptor<P>, Error>(&d),
                None => r matches Err(e) && unknown_prompt(name@, e),
            },
    {
        match self.prompts.get(name) {
            Some(d) => Ok(d),
            None => Err(Error::protocol(ErrorCode::InvalidParams, concat3("unknown prompt '", name, "'"))),
        }
    }
}

/// The methods a server answers.
#[derive(Debug, Clone, Copy, PartialEq, Eq, Structural)]
pub enum Route {
    Initialize,
    Ping,
    ToolsList,
    ToolsCall,
    ResourcesList,
    ResourcesRead,
    PromptsList,
    PromptsGet,
    SetLogLevel,
    Complete,
    Unsupported,
}

/// The route of each method name.
pub open spec fn route_of(m: Seq<char>) -> Route {
    if m == "initialize"@ {
        Route::Initialize
    } else if m == "ping"@ {
        Route::Ping
    } else if m == "tools/list"@ {
        Route::ToolsList
    } else if m == "tools/call"@ {
        Route::ToolsCall
    } else if m == "resources/list"@ {
        Route::ResourcesList
    } else if m == "resources/read"@ {
        Route::ResourcesRead
    } else if m == "prompts/list"@ {
        Route::PromptsList
    } else if m == "prompts/get"@ {
        Route::PromptsGet
    } else if m == "logging/setLevel"@ {
        Route::SetLogLevel
    } else if m == "completion/complete"@ {
        Route::Complete
    } else {
        Route::Unsupported
    }
}

/// Routes a request by its method name.
pub fn route(method: &str) -> (r: Route)
    ensures
        r == route_of(method@),
{
    if str_eq(method, "initialize") {
        Route::Initialize
    } else if str_eq(method, "ping") {
        Route::Ping
    } else if str_eq(method, "tools/list") {
        Route::ToolsList
    } else if str_eq(method, "tools/call") {
        Route::ToolsCall
    } else if str_eq(method, "resources/list") {
        Route::ResourcesList
    } else if str_eq(method, "resources/read") {
        Route::ResourcesRead
    } else if str_eq(method, "prompts/list") {
        Route::PromptsList
    } else if str_eq(method, "prompts/get") {
        Route::PromptsGet
    } else if str_eq(method, "logging/setLevel") {
        Route::SetLogLevel
    } else if str_eq(method, "completion/complete") {
        Route::Complete
    } else {
        Route::Unsupported
    }
}

/// The error answering a method the server does not support.
pub fn method_not_found(method: &str) -> (e: Error)
    ensures
        e matches Error::Protocol { code, message } && code == code_number(ErrorCode::MethodNotFound)
            && message@ == "method '"@ + method@ + "' not supported"@,
{
    Error::protocol(ErrorCode::MethodNotFound, concat3("method '", method, "' not supported"))
}

/// The error answering parameters that do not parse; `detail` is the parser's text.
pub fn invalid_params(detail: &str) -> (e: Error)
    ensures
        e matches Error::Protocol { code, message } && code == code_number(ErrorCode::InvalidParams)
            && message@ == "invalid params: "@ + detail@,
{
    Error::protocol(ErrorCode::InvalidParams, concat2("invalid params: ", detail))
}

/// The answer to a tool call whose handler failed: the error's text, flagged as
/// an error (a failed call is answered as a result, not as a protocol error).
pub fn tool_failure(e: &Error) -> (r: CallToolResult)
    ensures
        says(r, crate::mcp::error::error_message(*e), true),
{
    CallToolResult::error(e.message())
}

} // verus!
