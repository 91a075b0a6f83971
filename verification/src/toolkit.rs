//! The tool catalog and the tool dispatcher.
//!
//! The catalog lists the functions of the allowed tool components and
//! renders them for the model. The dispatcher lets a call through only if
//! its component is on the allow-list, and turns every failure into text
//! that the model can read.

use crate::host::{CallError, CallErrorView};
use crate::json::{json_shape, parse_json_shape, JsonShape, JsonShapeView};
use crate::text::{
    chars_of, find_char, find_in, join, join_strings, same_chars, same_text, slice_string, split,
    split_trimmed, trim,
};
use vstd::prelude::*;

verus! {

/// A parameter of a tool function.
#[derive(Debug, PartialEq, Eq)]
pub struct ToolParam {
    pub name: String,
    pub param_type: String,
}

/// A parameter as a mathematical value.
pub struct ToolParamView {
    pub name: Seq<char>,
    pub param_type: Seq<char>,
}

impl View for ToolParam {
    type V = ToolParamView;

    open spec fn view(&self) -> ToolParamView {
        ToolParamView { name: self.name@, param_type: self.param_type@ }
    }
}

impl DeepView for ToolParam {
    type V = ToolParamView;

    open spec fn deep_view(&self) -> ToolParamView {
        self@
    }
}

impl Clone for ToolParam {
    fn clone(&self) -> (r: Self)
        ensures
            r@ == self@,
    {
        ToolParam { name: self.name.clone(), param_type: self.param_type.clone() }
    }
}

/// A function that a component offers, as the host describes it.
#[derive(Debug, PartialEq, Eq)]
pub struct FunctionInfo {
    /// The name of the function within its interface.
    pub name: String,
    /// The interface that the function belongs to, if any.
    pub interface_name: Option<String>,
    /// What the function does, if the component says so.
    pub description: Option<String>,
    /// The parameters, in their order.
    pub inputs: Vec<ToolParam>,
    /// The type of the result, if there is one.
    pub output: Option<String>,
}

/// A function description as a mathematical value.
pub struct FunctionInfoView {
    pub name: Seq<char>,
    pub interface_name: Option<Seq<char>>,
    pub description: Option<Seq<char>>,
    pub inputs: Seq<ToolParamView>,
    pub output: Option<Seq<char>>,
}

impl View for FunctionInfo {
    type V = FunctionInfoView;

    open spec fn view(&self) -> FunctionInfoView {
        FunctionInfoView {
            name: self.name@,
            interface_name: self.interface_name.deep_view(),
            description: self.description.deep_view(),
            inputs: self.inputs.deep_view(),
            output: self.output.deep_view(),
        }
    }
}

impl DeepView for FunctionInfo {
    type V = FunctionInfoView;

    open spec fn deep_view(&self) -> FunctionInfoView {
        self@
    }
}

/// A component and the functions that it offers.
#[derive(Debug, PartialEq, Eq)]
pub struct ComponentInfo {
    pub name: String,
    pub functions: Vec<FunctionInfo>,
}

/// A component description as a mathematical value.
pub struct ComponentInfoView {
    pub name: Seq<char>,
    pub functions: Seq<FunctionInfoView>,
}

impl View for ComponentInfo {
    type V = ComponentInfoView;

    open spec fn view(&self) -> ComponentInfoView {
        ComponentInfoView { name: self.name@, functions: self.functions.deep_view() }
    }
}

impl DeepView for ComponentInfo {
    type V = ComponentInfoView;

    open spec fn deep_view(&self) -> ComponentInfoView {
        self@
    }
}

/// A tool as the catalog lists it.
#[derive(Debug, PartialEq, Eq)]
pub struct ToolInfo {
    /// The component that provides the tool.
    pub component_name: String,
    /// The function, as `interface/name`, or `name` without an interface.
    pub function_name: String,
    pub description: String,
    pub params: Vec<ToolParam>,
    pub return_type: String,
}

/// A catalog entry as a mathematical value.
pub struct ToolInfoView {
    pub component_name: Seq<char>,
    pub function_name: Seq<char>,
    pub description: Seq<char>,
    pub params: Seq<ToolParamView>,
    pub return_type: Seq<char>,
}

impl View for ToolInfo {
    type V = ToolInfoView;

    open spec fn view(&self) -> ToolInfoView {
        ToolInfoView {
            component_name: self.component_name@,
            function_name: self.function_name@,
            description: self.description@,
            params: self.params.deep_view(),
            return_type: self.return_type@,
        }
    }
}

impl DeepView for ToolInfo {
    type V = ToolInfoView;

    open spec fn deep_view(&self) -> ToolInfoView {
        self@
    }
}

/// What the dispatcher decides for a tool call.
#[derive(Debug, PartialEq, Eq)]
pub enum Dispatch {
    /// The component is not allowed. The call is not made; `reply` goes back
    /// to the model in place of a result.
    Rejected { reply: String },
    /// The component is allowed. The call goes to it as it was asked for.
    Forward { component: String, function: String, args: String },
}

/// A decision as a mathematical value.
pub enum DispatchView {
    Rejected { reply: Seq<char> },
    Forward { component: Seq<char>, function: Seq<char>, args: Seq<char> },
}

impl View for Dispatch {
    type V = DispatchView;

    open spec fn view(&self) -> DispatchView {
        match self {
            Dispatch::Rejected { reply } => DispatchView::Rejected { reply: reply@ },
            Dispatch::Forward { component, function, args } => DispatchView::Forward {
                component: component@,
                function: function@,
                args: args@,
            },
        }
    }
}

/// The pieces of `pieces`, trimmed, without the blank ones.
pub open spec fn trimmed_nonblank(pieces: Seq<Seq<char>>) -> Seq<Seq<char>>
    decreases pieces.len(),
{
    if pieces.len() == 0 {
        seq![]
    } else {
        let rest = trimmed_nonblank(pieces.drop_last());
        if trim(pieces.last()).len() == 0 {
            rest
        } else {
            rest.push(trim(pieces.last()))
        }
    }
}

/// The component names that a comma-separated list allows.
pub open spec fn allowed_names(configured: Seq<char>) -> Seq<Seq<char>> {
    trimmed_nonblank(split(configured, ','))
}

/// The words that start the rejection of a call.
pub open spec fn rejection_prefix() -> Seq<char> {
    "error: component '"@
}

/// The text that rejects a call to `component`.
pub open spec fn rejection(component: Seq<char>) -> Seq<char> {
    rejection_prefix() + component + "' is not in ASTERBOT_TOOLS"@
}

/// What the dispatcher decides for a call under the allow-list `allowed`.
pub open spec fn dispatched(
    allowed: Seq<Seq<char>>,
    component: Seq<char>,
    function: Seq<char>,
    args: Seq<char>,
) -> DispatchView {
    if allowed.contains(component) {
        DispatchView::Forward { component, function, args }
    } else {
        DispatchView::Rejected { reply: rejection(component) }
    }
}

/// What the failure of a provider becomes for the model to read.
pub open spec fn provider_failure_text(
    component: Seq<char>,
    function: Seq<char>,
    e: CallErrorView,
) -> Seq<char> {
    "error: "@ + component + "/"@ + function + " failed ("@ + e.kind + "): "@ + e.message
}

/// Whether the catalog leaves out the functions of `interface`: those of the
/// agent's own plumbing.
pub open spec fn is_skipped_interface(interface: Seq<char>) -> bool {
    ||| interface == "agent"@
    ||| interface == "core"@
    ||| interface == "toolkit"@
    ||| interface == "types"@
    ||| interface == "api"@
}

/// Whether the catalog lists `f`.
pub open spec fn is_listed(f: FunctionInfoView) -> bool {
    !is_skipped_interface(
        match f.interface_name {
            Some(i) => i,
            None => seq![],
        },
    )
}

/// The name under which the catalog lists `f`.
pub open spec fn qualified_name(f: FunctionInfoView) -> Seq<char> {
    match f.interface_name {
        Some(i) => i + "/"@ + f.name,
        None => f.name,
    }
}

/// The catalog entry for the function `f` of `component`.
pub open spec fn tool_of(component: Seq<char>, f: FunctionInfoView) -> ToolInfoView {
    ToolInfoView {
        component_name: component,
        function_name: qualified_name(f),
        description: match f.description {
            Some(d) => d,
            None => seq![],
        },
        params: f.inputs,
        return_type: match f.output {
            Some(t) => t,
            None => seq![],
        },
    }
}

/// The catalog entries for `functions` of `component`, in order.
pub open spec fn function_tools(component: Seq<char>, functions: Seq<FunctionInfoView>) -> Seq<
    ToolInfoView,
>
    decreases functions.len(),
{
    if functions.len() == 0 {
        seq![]
    } else {
        let rest = function_tools(component, functions.drop_last());
        if is_listed(functions.last()) {
            rest.push(tool_of(component, functions.last()))
        } else {
            rest
        }
    }
}

/// The catalog of `components`: the listed functions of each, in order.
pub open spec fn catalog(components: Seq<ComponentInfoView>) -> Seq<ToolInfoView>
    decreases components.len(),
{
    if components.len() == 0 {
        seq![]
    } else {
        catalog(components.drop_last()) + function_tools(
            components.last().name,
            components.last().functions,
        )
    }
}

/// The line that shows a parameter.
pub open spec fn param_line(p: ToolParamView) -> Seq<char> {
    "  - "@ + p.name + ": "@ + p.param_type + "\n"@
}

/// The lines that show `params`, in order.
pub open spec fn param_lines(params: Seq<ToolParamView>) -> Seq<char>
    decreases params.len(),
{
    if params.len() == 0 {
        seq![]
    } else {
        param_lines(params.drop_last()) + param_line(params.last())
    }
}

/// The section that shows a tool.
pub open spec fn tool_section(t: ToolInfoView) -> Seq<char> {
    "\n## "@ + t.component_name + " / "@ + t.function_name + "\n"@ + "Description: "@
        + t.description + "\n"@ + "Parameters:\n"@ + (if t.params.len() == 0 {
        "  (none)\n"@
    } else {
        param_lines(t.params)
    }) + "Returns: "@ + t.return_type + "\n"@
}

/// The sections that show `tools`, in order.
pub open spec fn tool_sections(tools: Seq<ToolInfoView>) -> Seq<char>
    decreases tools.len(),
{
    if tools.len() == 0 {
        seq![]
    } else {
        tool_sections(tools.drop_last()) + tool_section(tools.last())
    }
}

/// What the catalog text says when there is no tool.
pub open spec fn no_tools_notice() -> Seq<char> {
    "No tools available."@
}

/// The catalog as text for the model.
pub open spec fn catalog_text(tools: Seq<ToolInfoView>) -> Seq<char> {
    if tools.len() == 0 {
        no_tools_notice()
    } else {
        "Available tools:\n"@ + tool_sections(tools)
    }
}

/// A rejection names the component that it rejects: the name stands in the
/// text, right behind the opening words.
pub proof fn lemma_rejection_names_component(component: Seq<char>)
    ensures
        crate::text::occurs_at(rejection(component), component, rejection_prefix().len() as int),
{
    let start = rejection_prefix().len() as int;
    assert(rejection(component).subrange(start, start + component.len()) =~= component);
}

/// A call to a component that is not allowed is never forwarded, and a call
/// to an allowed component is forwarded as it is.
pub proof fn lemma_allow_list_enforced(
    allowed: Seq<Seq<char>>,
    component: Seq<char>,
    function: Seq<char>,
    args: Seq<char>,
)
    ensures
        dispatched(allowed, component, function, args) is Forward <==> allowed.contains(component),
        dispatched(allowed, component, function, args) matches DispatchView::Forward {
            component: c,
            function: f,
            args: a,
        } ==> c == component && f == function && a == args,
        dispatched(allowed, component, function, args) matches DispatchView::Rejected { reply }
            ==> reply == rejection(component),
{
}

/// The component names that the comma-separated list `configured` allows:
/// its entries, trimmed, without the empty ones.
pub fn tool_component_names(configured: &str) -> (r: Vec<String>)
    ensures
        r.deep_view() == allowed_names(configured@),
{
    let pieces = split_trimmed(configured, ',');
    let ghost entries = split(configured@, ',');
    let mut names: Vec<String> = Vec::new();
    let n = pieces.len();
    let mut i: usize = 0;
    assert(pieces.deep_view().len() == entries.map_values(|piece: Seq<char>| trim(piece)).len());
    assert(names.deep_view() =~= trimmed_nonblank(entries.take(0)));
    while i < n
        invariant
            n == pieces.len(),
            n == entries.len(),
            i <= n,
            entries == split(configured@, ','),
            pieces.deep_view() == entries.map_values(|piece: Seq<char>| trim(piece)),
            names.deep_view() == trimmed_nonblank(entries.take(i as int)),
        decreases n - i,
    {
        let ghost before = names.deep_view();
        assert(entries.take(i + 1).drop_last() =~= entries.take(i as int));
        assert(entries.take(i + 1).last() == entries[i as int]);
        assert(pieces.deep_view()[i as int] == trim(entries[i as int]));
        assert(pieces.deep_view()[i as int] == pieces[i as int]@);
        if pieces[i].as_str().unicode_len() > 0 {
            names.push(pieces[i].clone());
            assert(names.deep_view() =~= before.push(trim(entries[i as int])));
        }
        i += 1;
    }
    assert(entries.take(n as int) =~= entries);
    names
}

/// Whether the allow-list `allowed` holds `component`.
pub fn is_allowed(allowed: &Vec<String>, component: &str) -> (r: bool)
    ensures
        r == allowed.deep_view().contains(component@),
{
    let n = allowed.len();
    let mut i: usize = 0;
    while i < n
        invariant
            n == allowed.len(),
            i <= n,
            forall|k: int| 0 <= k < i ==> allowed.deep_view()[k] != component@,
        decreases n - i,
    {
        if same_text(allowed[i].as_str(), component) {
            assert(allowed.deep_view()[i as int] == component@);
            return true;
        }
        i += 1;
    }
    false
}

/// Decides a tool call: forwards it as it is if its component is on the
/// allow-list, and rejects it with a text that names the component if not.
pub fn dispatch(allowed: &Vec<String>, component: String, function: String, args: String) -> (r:
    Dispatch)
    ensures
        r@ == dispatched(allowed.deep_view(), component@, function@, args@),
        r is Forward <==> allowed.deep_view().contains(component@),
{
    if is_allowed(allowed, component.as_str()) {
        Dispatch::Forward { component, function, args }
    } else {
        let mut reply = "error: component '".to_owned();
        reply.append(component.as_str());
        reply.append("' is not in ASTERBOT_TOOLS");
        Dispatch::Rejected { reply }
    }
}

/// What a forwarded call came to, as text for the model: the provider's
/// result as it is, or a description of its failure.
pub fn provider_reply(component: &str, function: &str, outcome: Result<String, CallError>) -> (r:
    String)
    ensures
        r@ == match outcome {
            Ok(text) => text@,
            Err(e) => provider_failure_text(component@, function@, e@),
        },
{
    match outcome {
        Ok(text) => text,
        Err(e) => {
            let mut out = "error: ".to_owned();
            out.append(component);
            out.append("/");
            out.append(function);
            out.append(" failed (");
            out.append(e.kind.as_str());
            out.append("): ");
            out.append(e.message.as_str());
            out
        },
    }
}

/// Whether the catalog leaves out the functions of `interface`.
pub fn skips_interface(interface: &str) -> (r: bool)
    ensures
        r == is_skipped_interface(interface@),
{
    same_text(interface, "agent") || same_text(interface, "core") || same_text(
        interface,
        "toolkit",
    ) || same_text(interface, "types") || same_text(interface, "api")
}

/// The catalog entry for the function `f` of `component`.
pub fn describe_tool(component: &str, f: &FunctionInfo) -> (r: ToolInfo)
    ensures
        r@ == tool_of(component@, f@),
{
    let function_name = match &f.interface_name {
        Some(i) => {
            let mut name = i.clone();
            name.append("/");
            name.append(f.name.as_str());
            name
        },
        None => f.name.clone(),
    };
    let description = match &f.description {
        Some(d) => d.clone(),
        None => String::new(),
    };
    let return_type = match &f.output {
        Some(t) => t.clone(),
        None => String::new(),
    };
    let mut params: Vec<ToolParam> = Vec::new();
    let n = f.inputs.len();
    let mut i: usize = 0;
    while i < n
        invariant
            n == f.inputs.len(),
            i <= n,
            params.deep_view() == f.inputs.deep_view().take(i as int),
        decreases n - i,
    {
        let ghost copied = params.deep_view();
        params.push(f.inputs[i].clone());
        assert(params.deep_view() =~= copied.push(f.inputs[i as int]@));
        assert(copied.push(f.inputs[i as int]@) =~= f.inputs.deep_view().take(i + 1));
        i += 1;
    }
    assert(f.inputs.deep_view().take(n as int) =~= f.inputs.deep_view());
    ToolInfo { component_name: component.to_owned(), function_name, description, params, return_type }
}

/// The catalog of `components`: for each, in order, its functions but those
/// of the agent's own plumbing.
pub fn list_tools(components: &Vec<ComponentInfo>) -> (r: Vec<ToolInfo>)
    ensures
        r.deep_view() == catalog(components.deep_view()),
{
    let mut tools: Vec<ToolInfo> = Vec::new();
    let n = components.len();
    let mut i: usize = 0;
    assert(tools.deep_view() =~= catalog(components.deep_view().take(0)));
    while i < n
        invariant
            n == components.len(),
            i <= n,
            tools.deep_view() == catalog(components.deep_view().take(i as int)),
        decreases n - i,
    {
        let component = &components[i];
        let ghost before = tools.deep_view();
        let ghost fs = component.functions.deep_view();
        let m = component.functions.len();
        let mut j: usize = 0;
        assert(tools.deep_view() =~= before + function_tools(component.name@, fs.take(0)));
        while j < m
            invariant
                m == component.functions.len(),
                j <= m,
                fs == component.functions.deep_view(),
                tools.deep_view() == before + function_tools(component.name@, fs.take(j as int)),
            decreases m - j,
        {
            let f = &component.functions[j];
            let skipped = match &f.interface_name {
                Some(name) => skips_interface(name.as_str()),
                None => skips_interface(""),
            };
            proof {
                reveal_strlit("");
                assert(""@ =~= Seq::<char>::empty());
                assert(fs.take(j + 1).drop_last() =~= fs.take(j as int));
                assert(fs.take(j + 1).last() == f@);
            }
            let ghost listed = tools.deep_view();
            if !skipped {
                let tool = describe_tool(component.name.as_str(), f);
                tools.push(tool);
                assert(tools.deep_view() =~= listed.push(tool_of(component.name@, f@)));
                assert((before + function_tools(component.name@, fs.take(j as int))).push(
                    tool_of(component.name@, f@),
                ) =~= before + function_tools(component.name@, fs.take(j as int)).push(
                    tool_of(component.name@, f@),
                ));
            }
            assert(tools.deep_view() =~= before + function_tools(component.name@, fs.take(j + 1)));
            j += 1;
        }
        proof {
            assert(fs.take(m as int) =~= fs);
            let cs = components.deep_view();
            assert(cs.take(i + 1).drop_last() =~= cs.take(i as int));
            assert(cs.take(i + 1).last() == component@);
        }
        i += 1;
    }
    assert(components.deep_view().take(n as int) =~= components.deep_view());
    tools
}

/// Appends the lines that show `params`.
fn append_param_lines(out: &mut String, params: &Vec<ToolParam>)
    ensures
        final(out)@ == old(out)@ + param_lines(params.deep_view()),
{
    let ghost head = out@;
    let ghost ps = params.deep_view();
    let m = params.len();
    let mut j: usize = 0;
    assert(out@ =~= head + param_lines(ps.take(0)));
    while j < m
        invariant
            m == params.len(),
            j <= m,
            ps == params.deep_view(),
            out@ == head + param_lines(ps.take(j as int)),
        decreases m - j,
    {
        let p = &params[j];
        let ghost before = out@;
        assert(ps.take(j + 1).drop_last() =~= ps.take(j as int));
        assert(ps.take(j + 1).last() == p@);
        out.append("  - ");
        out.append(p.name.as_str());
        out.append(": ");
        out.append(p.param_type.as_str());
        out.append("\n");
        assert(out@ =~= before + param_line(p@));
        assert(out@ =~= head + param_lines(ps.take(j + 1)));
        j += 1;
    }
    assert(ps.take(m as int) =~= ps);
}

/// Appends the section that shows `t`.
fn append_tool_section(out: &mut String, t: &ToolInfo)
    ensures
        final(out)@ == old(out)@ + tool_section(t@),
{
    let ghost head = out@;
    out.append("\n## ");
    out.append(t.component_name.as_str());
    out.append(" / ");
    out.append(t.function_name.as_str());
    out.append("\n");
    out.append("Description: ");
    out.append(t.description.as_str());
    out.append("\n");
    out.append("Parameters:\n");
    if t.params.len() == 0 {
        out.append("  (none)\n");
    } else {
        append_param_lines(out, &t.params);
    }
    out.append("Returns: ");
    out.append(t.return_type.as_str());
    out.append("\n");
    assert(out@ =~= head + tool_section(t@));
}

/// The catalog as text for the model: a section for each tool, or a notice
/// that there is none.
pub fn format_tools_for_prompt(tools: &Vec<ToolInfo>) -> (r: String)
    ensures
        r@ == catalog_text(tools.deep_view()),
{
    if tools.len() == 0 {
        return "No tools available.".to_owned();
    }
    let mut out = "Available tools:\n".to_owned();
    let ghost head = out@;
    let ghost ts = tools.deep_view();
    let n = tools.len();
    let mut i: usize = 0;
    assert(out@ =~= head + tool_sections(ts.take(0)));
    while i < n
        invariant
            n == tools.len(),
            i <= n,
            ts == tools.deep_view(),
            out@ == head + tool_sections(ts.take(i as int)),
        decreases n - i,
    {
        let t = &tools[i];
        assert(ts.take(i + 1).drop_last() =~= ts.take(i as int));
        assert(ts.take(i + 1).last() == t@);
        append_tool_section(&mut out, t);
        assert(out@ =~= head + tool_sections(ts.take(i + 1)));
        i += 1;
    }
    assert(ts.take(n as int) =~= ts);
    out
}

/// The value of the first member of `members` whose key is `key`.
pub open spec fn member_value(members: Seq<(Seq<char>, Seq<char>)>, key: Seq<char>) -> Option<
    Seq<char>,
>
    decreases members.len(),
{
    if members.len() == 0 {
        None
    } else if members[0].0 == key {
        Some(members[0].1)
    } else {
        member_value(members.drop_first(), key)
    }
}

/// `name` with an underscore in place of each dash.
pub open spec fn underscored(name: Seq<char>) -> Seq<char> {
    name.map_values(
        |c: char|
            if c == '-' {
                '_'
            } else {
                c
            },
    )
}

/// The argument for the parameter `param`: the member of that name, else the
/// member of that name with underscores for dashes, else `null`.
pub open spec fn argument_for(members: Seq<(Seq<char>, Seq<char>)>, param: Seq<char>) -> Seq<
    char,
> {
    match member_value(members, param) {
        Some(v) => v,
        None => match member_value(members, underscored(param)) {
            Some(v) => v,
            None => "null"@,
        },
    }
}

/// The arguments for `params`, in their order.
pub open spec fn arguments_for(
    members: Seq<(Seq<char>, Seq<char>)>,
    params: Seq<ToolParamView>,
) -> Seq<Seq<char>> {
    params.map_values(|p: ToolParamView| argument_for(members, p.name))
}

/// The JSON array of `values`, each of them JSON text.
pub open spec fn array_text(values: Seq<Seq<char>>) -> Seq<char> {
    "["@ + join(values, ","@) + "]"@
}

/// The interface and the name that a function identifier holds: what stands
/// before and behind its first slash, or no interface if it has no slash.
pub open spec fn split_function(function: Seq<char>) -> (Option<Seq<char>>, Seq<char>) {
    match find_char(function, '/') {
        Some(i) => (Some(function.take(i)), function.skip(i + 1)),
        None => (None, function),
    }
}

/// Whether `f` is the function that `function` identifies.
pub open spec fn is_function(f: FunctionInfoView, function: Seq<char>) -> bool {
    f.name == split_function(function).1 && f.interface_name == split_function(function).0
}

/// The first of `functions` that `function` identifies.
pub open spec fn signature_of(functions: Seq<FunctionInfoView>, function: Seq<char>) -> Option<
    FunctionInfoView,
>
    decreases functions.len(),
{
    if functions.len() == 0 {
        None
    } else if is_function(functions[0], function) {
        Some(functions[0])
    } else {
        signature_of(functions.drop_first(), function)
    }
}

/// The argument text as the host takes it, for an argument text of shape
/// `shape`: an array stays as it is; a scalar becomes the one element of an
/// array; an object whose function is known becomes the array of the
/// function's parameters, by name; everything else stays as it is.
pub open spec fn positional_args(
    shape: Option<JsonShapeView>,
    info: Option<ComponentInfoView>,
    function: Seq<char>,
    args_json: Seq<char>,
) -> Seq<char> {
    match shape {
        None => args_json,
        Some(JsonShapeView::Array) => args_json,
        Some(JsonShapeView::Scalar) => "["@ + args_json + "]"@,
        Some(JsonShapeView::Object(members)) => match info {
            None => args_json,
            Some(c) => match signature_of(c.functions, function) {
                None => args_json,
                Some(f) => array_text(arguments_for(members, f.inputs)),
            },
        },
    }
}

/// The value of the first member of `members` whose key is `key`.
fn find_member<'a>(members: &'a Vec<(String, String)>, key: &Vec<char>) -> (r: Option<&'a String>)
    ensures
        r.deep_view() == member_value(members.deep_view(), key@),
{
    let n = members.len();
    let ghost all = members.deep_view();
    let mut i: usize = 0;
    assert(all.skip(0) =~= all);
    while i < n
        invariant
            n == members.len(),
            i <= n,
            all == members.deep_view(),
            member_value(all, key@) == member_value(all.skip(i as int), key@),
        decreases n - i,
    {
        assert(all.skip(i as int).drop_first() =~= all.skip(i + 1));
        assert(all.skip(i as int)[0] == all[i as int]);
        assert(all[i as int] == members[i as int].deep_view());
        let held = chars_of(members[i].0.as_str());
        if same_chars(&held, key) {
            return Some(&members[i].1);
        }
        i += 1;
    }
    None
}

/// The argument for the parameter `param`.
fn pick_argument(members: &Vec<(String, String)>, param: &str) -> (r: String)
    ensures
        r@ == argument_for(members.deep_view(), param@),
{
    let name = chars_of(param);
    match find_member(members, &name) {
        Some(v) => v.clone(),
        None => {
            let mut other: Vec<char> = Vec::new();
            let n = name.len();
            let mut i: usize = 0;
            while i < n
                invariant
                    n == name.len(),
                    i <= n,
                    other@ == underscored(name@).take(i as int),
                decreases n - i,
            {
                let c = name[i];
                other.push(if c == '-' {
                    '_'
                } else {
                    c
                });
                assert(other@ =~= underscored(name@).take(i + 1));
                i += 1;
            }
            assert(underscored(name@).take(n as int) =~= underscored(name@));
            match find_member(members, &other) {
                Some(v) => v.clone(),
                None => "null".to_owned(),
            }
        },
    }
}

/// The interface and the name that a function identifier holds.
pub fn split_function_name(function: &str) -> (r: (Option<String>, String))
    ensures
        r.0.deep_view() == split_function(function@).0,
        r.1@ == split_function(function@).1,
{
    let chars = chars_of(function);
    let n = chars.len();
    let mut slash: Vec<char> = Vec::new();
    slash.push('/');
    assert(slash@ =~= seq!['/']);
    assert(chars@.subrange(0, n as int) =~= function@);
    match find_in(&chars, 0, n, &slash) {
        Some(i) => {
            assert(function@.subrange(0, i as int) =~= function@.take(i as int));
            assert(function@.subrange(i + 1, n as int) =~= function@.skip(i + 1));
            (Some(slice_string(function, 0, i)), slice_string(function, i + 1, n))
        },
        None => (None, function.to_owned()),
    }
}

/// The first of `functions` that `function` identifies.
pub fn find_signature<'a>(functions: &'a Vec<FunctionInfo>, function: &str) -> (r: Option<
    &'a FunctionInfo,
>)
    ensures
        r.deep_view() == signature_of(functions.deep_view(), function@),
{
    let (interface, name) = split_function_name(function);
    let n = functions.len();
    let ghost all = functions.deep_view();
    let mut i: usize = 0;
    assert(all.skip(0) =~= all);
    while i < n
        invariant
            n == functions.len(),
            i <= n,
            all == functions.deep_view(),
            interface.deep_view() == split_function(function@).0,
            name@ == split_function(function@).1,
            signature_of(all, function@) == signature_of(all.skip(i as int), function@),
        decreases n - i,
    {
        assert(all.skip(i as int).drop_first() =~= all.skip(i + 1));
        assert(all.skip(i as int)[0] == functions[i as int]@);
        let f = &functions[i];
        let same_interface = match (&f.interface_name, &interface) {
            (Some(a), Some(b)) => same_text(a.as_str(), b.as_str()),
            (None, None) => true,
            _ => false,
        };
        if same_interface && same_text(f.name.as_str(), name.as_str()) {
            return Some(f);
        }
        i += 1;
    }
    None
}

/// The arguments for the parameters of `f`, as a JSON array.
fn arrange_members(members: &Vec<(String, String)>, f: &FunctionInfo) -> (r: String)
    ensures
        r@ == array_text(arguments_for(members.deep_view(), f.inputs.deep_view())),
{
    let ghost wanted = arguments_for(members.deep_view(), f.inputs.deep_view());
    let mut values: Vec<String> = Vec::new();
    let n = f.inputs.len();
    let mut i: usize = 0;
    assert(values.deep_view() =~= wanted.take(0));
    while i < n
        invariant
            n == f.inputs.len(),
            i <= n,
            wanted == arguments_for(members.deep_view(), f.inputs.deep_view()),
            values.deep_view() == wanted.take(i as int),
        decreases n - i,
    {
        let ghost picked = values.deep_view();
        let value = pick_argument(members, f.inputs[i].name.as_str());
        values.push(value);
        assert(values.deep_view() =~= picked.push(value@));
        assert(f.inputs.deep_view()[i as int] == f.inputs[i as int]@);
        assert(picked.push(value@) =~= wanted.take(i + 1));
        i += 1;
    }
    assert(wanted.take(n as int) =~= wanted);
    let mut out = "[".to_owned();
    out.append(join_strings(&values, ",").as_str());
    out.append("]");
    out
}

/// Whether the argument text `args_json` is a JSON object, so that the
/// signature of the function is needed to bring it into positional form.
pub fn args_are_named(args_json: &str) -> (r: bool)
    ensures
        r == (json_shape(args_json@) matches Some(JsonShapeView::Object(_))),
{
    match parse_json_shape(args_json) {
        Some(JsonShape::Object(_)) => true,
        _ => false,
    }
}

/// Brings an argument text of the shape `shape` into the positional form
/// that the host takes, with `info` the description of the component if the
/// host has one.
pub fn arrange_args(
    shape: Option<JsonShape>,
    info: Option<&ComponentInfo>,
    function: &str,
    args_json: &str,
) -> (r: String)
    ensures
        r@ == positional_args(shape.deep_view(), info.deep_view(), function@, args_json@),
{
    match shape {
        None => args_json.to_owned(),
        Some(JsonShape::Array) => args_json.to_owned(),
        Some(JsonShape::Scalar) => {
            let mut out = "[".to_owned();
            out.append(args_json);
            out.append("]");
            out
        },
        Some(JsonShape::Object(members)) => match info {
            None => args_json.to_owned(),
            Some(c) => match find_signature(&c.functions, function) {
                None => args_json.to_owned(),
                Some(f) => arrange_members(&members, f),
            },
        },
    }
}

/// Brings the argument text of a tool call into the positional form that the
/// host takes: an array stays as it is, a single value becomes an array of
/// one, and the members of an object are put in the order of the function's
/// parameters. Text that is no JSON, and an object whose function the
/// component does not describe, stay as they are.
pub fn convert_args_to_array(info: Option<&ComponentInfo>, function: &str, args_json: &str) -> (r:
    String)
    ensures
        r@ == positional_args(json_shape(args_json@), info.deep_view(), function@, args_json@),
{
    arrange_args(parse_json_shape(args_json), info, function, args_json)
}

} // verus!
