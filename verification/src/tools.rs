use vstd::prelude::*;
use vstd::string::StringExecFns;

use crate::error::Error;
use crate::json::json_bool;

verus! {

/// One typed, described property of a tool's parameter object.
#[derive(Clone, Debug)]
pub struct PropertyDefinition {
    pub prop_type: String,
    pub description: String,
}

/// One named property entry of a parameter object.
#[derive(Clone, Debug)]
pub struct PropertyEntry {
    pub name: String,
    pub definition: PropertyDefinition,
}

/// The typed parameter schema of a tool: an object with named properties,
/// a subset of which may be marked required.
#[derive(Clone, Debug)]
pub struct ParameterDefinition {
    pub param_type: String,
    pub properties: Option<Vec<PropertyEntry>>,
    pub required: Option<Vec<String>>,
}

/// The externally visible shape of one callable, as a provider sends it
/// to the remote model: name, description and parameter schema.
#[derive(Clone, Debug)]
pub struct ToolDefinition {
    pub name: String,
    pub description: String,
    pub parameters: ParameterDefinition,
}

/// A collection of tool descriptors, wrapped as the wire expects it.
#[derive(Clone, Debug)]
pub struct ToolConfig {
    pub function_declarations: Vec<ToolDefinition>,
}

/// The function-calling mode a provider may send along with descriptors.
#[derive(Clone, Debug)]
pub struct FunctionCallingConfig {
    pub mode: String,
}

/// The mathematical shape of one property: name, type and description.
pub struct PropertyModel {
    pub name: Seq<char>,
    pub prop_type: Seq<char>,
    pub description: Seq<char>,
}

/// The mathematical shape of a parameter schema.
pub struct ParamModel {
    pub param_type: Seq<char>,
    pub properties: Option<Seq<PropertyModel>>,
    pub required: Option<Seq<Seq<char>>>,
}

/// The entry `e` carries exactly the property `m` describes.
pub open spec fn property_matches(e: PropertyEntry, m: PropertyModel) -> bool {
    e.name@ == m.name && e.definition.prop_type@ == m.prop_type && e.definition.description@
        == m.description
}

/// The schema `p` carries exactly what the model `m` describes.
pub open spec fn param_matches(p: ParameterDefinition, m: ParamModel) -> bool {
    &&& p.param_type@ == m.param_type
    &&& match (p.properties, m.properties) {
        (Some(v), Some(s)) => v@.len() == s.len() && (forall|k: int|
            0 <= k < s.len() ==> property_matches(#[trigger] v@[k], s[k])),
        (None, None) => true,
        _ => false,
    }
    &&& match (p.required, m.required) {
        (Some(v), Some(s)) => v@.len() == s.len() && (forall|k: int|
            0 <= k < s.len() ==> (#[trigger] v@[k]@) == s[k]),
        (None, None) => true,
        _ => false,
    }
}

/// A named, schema-described callable executed with a structured-value
/// argument bag. Whatever side effect the execute operation performs is
/// the tool's own business; the registry has no side channel for it.
pub trait Tool: Sized {
    /// The stable name the tool registers under.
    spec fn spec_name(&self) -> Seq<char>;

    /// The human-readable description shown to the model.
    spec fn spec_description(&self) -> Seq<char>;

    /// The parameter schema this tool declares.
    spec fn spec_parameters(&self) -> ParamModel;

    /// Returns the tool's name.
    fn name(&self) -> (r: &str)
        ensures
            r@ == self.spec_name(),
    ;

    /// Returns the tool's description.
    fn description(&self) -> (r: &str)
        ensures
            r@ == self.spec_description(),
    ;

    /// Returns the tool's parameter schema.
    fn parameters(&self) -> (r: ParameterDefinition)
        ensures
            param_matches(r, self.spec_parameters()),
    ;

    /// Executes the tool on a structured-value argument bag.
    fn execute(&self, params: serde_json::Value) -> Result<serde_json::Value, Error>;
}

/// All names in `s` are pairwise distinct.
pub open spec fn unique_names<T: Tool>(s: Seq<T>) -> bool {
    forall|a: int, b: int|
        #![trigger s[a].spec_name(), s[b].spec_name()]
        0 <= a < b < s.len() ==> s[a].spec_name() != s[b].spec_name()
}

/// Some tool in `s` carries `name`.
pub open spec fn has_name<T: Tool>(s: Seq<T>, name: Seq<char>) -> bool {
    exists|k: int| 0 <= k < s.len() && (#[trigger] s[k].spec_name()) == name
}

/// The position of the tool carrying `name`.
pub open spec fn index_of_name<T: Tool>(s: Seq<T>, name: Seq<char>) -> int {
    choose|k: int| 0 <= k < s.len() && (#[trigger] s[k].spec_name()) == name
}

/// What registration does: replace the tool holding the same name in
/// place if one is present, append otherwise.
pub open spec fn spec_register<T: Tool>(s: Seq<T>, t: T) -> Seq<T> {
    if has_name(s, t.spec_name()) {
        s.update(index_of_name(s, t.spec_name()), t)
    } else {
        s.push(t)
    }
}

/// Replacing an entry by one carrying the same name keeps names unique.
proof fn lemma_update_unique<T: Tool>(s: Seq<T>, i: int, t: T)
    requires
        unique_names(s),
        0 <= i < s.len(),
        s[i].spec_name() == t.spec_name(),
    ensures
        unique_names(s.update(i, t)),
{
    let s2 = s.update(i, t);
    assert forall|a: int, b: int|
        #![trigger s2[a].spec_name(), s2[b].spec_name()]
        0 <= a < b < s2.len() implies s2[a].spec_name() != s2[b].spec_name() by {
        assert(s[a].spec_name() != s[b].spec_name());
        if a == i {
            assert(s2[a].spec_name() == s[i].spec_name());
        } else if b == i {
            assert(s2[b].spec_name() == s[i].spec_name());
        }
    }
}

/// Appending a tool under a fresh name keeps names unique.
proof fn lemma_push_unique<T: Tool>(s: Seq<T>, t: T)
    requires
        unique_names(s),
        !has_name(s, t.spec_name()),
    ensures
        unique_names(s.push(t)),
{
    let s2 = s.push(t);
    assert forall|a: int, b: int|
        #![trigger s2[a].spec_name(), s2[b].spec_name()]
        0 <= a < b < s2.len() implies s2[a].spec_name() != s2[b].spec_name() by {
        if b == s.len() {
            assert(s2[b] == t);
            assert(s2[a] == s[a]);
            assert(s[a].spec_name() != t.spec_name());
        } else {
            assert(s2[a] == s[a] && s2[b] == s[b]);
        }
    }
}

/// The owner of all callables available for a dispatch. Tool names are
/// unique within one registry; registering under a present name replaces
/// the previous tool (last registration wins).
pub struct ToolRegistry<T: Tool> {
    tools: Vec<T>,
}

impl<T: Tool> ToolRegistry<T> {
    /// The registered tools, in registration order.
    pub closed spec fn spec_tools(&self) -> Seq<T> {
        self.tools@
    }

    /// Names are unique within the registry.
    pub open spec fn wf(&self) -> bool {
        unique_names(self.spec_tools())
    }

    /// Some tool is registered under `name`.
    pub open spec fn has_tool(&self, name: Seq<char>) -> bool {
        has_name(self.spec_tools(), name)
    }

    /// Creates an empty registry.
    pub fn new() -> (r: Self)
        ensures
            r.wf(),
            r.spec_tools() == Seq::<T>::empty(),
    {
        let r = ToolRegistry { tools: Vec::new() };
        proof {
            assert(r.spec_tools() =~= Seq::<T>::empty());
        }
        r
    }

    /// Inserts or replaces a tool under its declared name. Never fails:
    /// on a name collision the previous tool is replaced in place.
    #[verifier::loop_isolation(false)]
    pub fn register(&mut self, tool: T)
        requires
            old(self).wf(),
        ensures
            final(self).wf(),
            final(self).spec_tools() == spec_register(old(self).spec_tools(), tool),
    {
        let new_name: String = tool.name().to_owned();
        let n = self.tools.len();
        let mut i: usize = 0;
        while i < n
            invariant
                i <= n,
                self.tools@ == old(self).tools@,
                forall|k: int|
                    0 <= k < i ==> (#[trigger] self.tools@[k].spec_name()) != tool.spec_name(),
            decreases n - i,
        {
            let existing: String = self.tools[i].name().to_owned();
            if existing == new_name {
                let ghost s = self.tools@;
                self.tools.remove(i);
                self.tools.insert(i, tool);
                proof {
                    assert(self.tools@ =~= s.update(i as int, tool));
                    assert(s[i as int].spec_name() == tool.spec_name());
                    assert(has_name(s, tool.spec_name()));
                    let k = index_of_name(s, tool.spec_name());
                    assert(0 <= k < s.len() && s[k].spec_name() == tool.spec_name());
                    if k < i {
                        assert(s[k].spec_name() != s[i as int].spec_name());
                    } else if k > i {
                        assert(s[i as int].spec_name() != s[k].spec_name());
                    }
                    assert(k == i);
                    lemma_update_unique(s, i as int, tool);
                }
                return ;
            }
            i = i + 1;
        }
        let ghost s = self.tools@;
        self.tools.push(tool);
        proof {
            if has_name(s, tool.spec_name()) {
                let k = index_of_name(s, tool.spec_name());
                assert(0 <= k < s.len() && s[k].spec_name() == tool.spec_name());
            }
            assert(!has_name(s, tool.spec_name()));
            lemma_push_unique(s, tool);
        }
    }

    /// Produces the full set of current descriptors: exactly one per
    /// registered tool, in registration order, each carrying that tool's
    /// name, description and schema. The set is recomputed on every call,
    /// so it always reflects current registrations.
    #[verifier::loop_isolation(false)]
    pub fn get_tool_definitions(&self) -> (r: ToolConfig)
        ensures
            r.function_declarations@.len() == self.spec_tools().len(),
            forall|k: int|
                0 <= k < self.spec_tools().len() ==> (#[trigger] r.function_declarations@[k]).name@
                    == self.spec_tools()[k].spec_name()
                    && r.function_declarations@[k].description@
                    == self.spec_tools()[k].spec_description()
                    && param_matches(
                    r.function_declarations@[k].parameters,
                    self.spec_tools()[k].spec_parameters(),
                ),
    {
        let mut declarations: Vec<ToolDefinition> = Vec::new();
        let n = self.tools.len();
        let mut i: usize = 0;
        while i < n
            invariant
                i <= n,
                declarations@.len() == i,
                forall|k: int|
                    0 <= k < i ==> (#[trigger] declarations@[k]).name@
                        == self.spec_tools()[k].spec_name() && declarations@[k].description@
                        == self.spec_tools()[k].spec_description() && param_matches(
                        declarations@[k].parameters,
                        self.spec_tools()[k].spec_parameters(),
                    ),
            decreases n - i,
        {
            let definition = ToolDefinition {
                name: self.tools[i].name().to_owned(),
                description: self.tools[i].description().to_owned(),
                parameters: self.tools[i].parameters(),
            };
            declarations.push(definition);
            i = i + 1;
        }
        ToolConfig { function_declarations: declarations }
    }

    /// The message reported when no tool carries the requested name.
    pub open spec fn spec_not_found_message(name: Seq<char>) -> Seq<char> {
        "Tool "@ + name + " not found"@
    }

    /// Looks `name` up and forwards to that tool's execute operation and
    /// its result or failure; fails with the not-found `ToolError` when no
    /// tool is registered under `name`, whatever the arguments.
    pub fn execute_tool(&self, name: &str, params: serde_json::Value) -> (r: Result<
        serde_json::Value,
        Error,
    >)
        ensures
            !self.has_tool(name@) ==> (r matches Err(e) && e matches Error::ToolError(m) && m@
                == Self::spec_not_found_message(name@)),
    {
        let key: String = name.to_owned();
        let n = self.tools.len();
        let mut i: usize = 0;
        while i < n
            invariant
                i <= n,
                n == self.tools@.len(),
                key@ == name@,
                forall|k: int| 0 <= k < i ==> (#[trigger] self.tools@[k].spec_name()) != name@,
            decreases n - i,
        {
            let existing: String = self.tools[i].name().to_owned();
            if existing == key {
                return self.tools[i].execute(params);
            }
            i = i + 1;
        }
        let mut message = String::new();
        message.append("Tool ");
        message.append(name);
        message.append(" not found");
        proof {
            if has_name(self.tools@, name@) {
                let k = index_of_name(self.tools@, name@);
                assert(0 <= k < self.tools@.len() && self.tools@[k].spec_name() == name@);
            }
            assert(message@ =~= Self::spec_not_found_message(name@));
        }
        Err(Error::ToolError(message))
    }
}

/// Law: registering a tool under a name already present replaces the
/// previous entry. Afterwards names are still unique, the name is
/// present, and the one tool carrying it is the newly registered one.
pub proof fn lemma_register_replaces<T: Tool>(s: Seq<T>, t: T)
    requires
        unique_names(s),
    ensures
        unique_names(spec_register(s, t)),
        has_name(spec_register(s, t), t.spec_name()),
        spec_register(s, t)[index_of_name(spec_register(s, t), t.spec_name())] == t,
{
    let nm = t.spec_name();
    if has_name(s, nm) {
        let i = index_of_name(s, nm);
        assert(0 <= i < s.len() && s[i].spec_name() == nm);
        let s2 = s.update(i, t);
        lemma_update_unique(s, i, t);
        assert(s2[i].spec_name() == nm);
        assert(has_name(s2, nm));
        let k = index_of_name(s2, nm);
        assert(0 <= k < s2.len() && s2[k].spec_name() == nm);
        if k < i {
            assert(s2[k].spec_name() != s2[i].spec_name());
        } else if k > i {
            assert(s2[i].spec_name() != s2[k].spec_name());
        }
        assert(k == i);
    } else {
        let s2 = s.push(t);
        lemma_push_unique(s, t);
        assert(s2[s.len() as int] == t);
        assert(has_name(s2, nm));
        let k = index_of_name(s2, nm);
        assert(0 <= k < s2.len() && s2[k].spec_name() == nm);
        if k < s.len() {
            assert(s2[k] == s[k]);
            assert(has_name(s, nm));
        }
        assert(k == s.len());
    }
}

/// A data-driven sample tool: its name and description are fixed at
/// construction, its schema is a bare object, and its execute operation
/// answers with the argument bag it was given.
pub struct EchoTool {
    pub name: String,
    pub description: String,
}

impl Tool for EchoTool {
    open spec fn spec_name(&self) -> Seq<char> {
        self.name@
    }

    open spec fn spec_description(&self) -> Seq<char> {
        self.description@
    }

    open spec fn spec_parameters(&self) -> ParamModel {
        ParamModel { param_type: "object"@, properties: None, required: None }
    }

    fn name(&self) -> (r: &str) {
        self.name.as_str()
    }

    fn description(&self) -> (r: &str) {
        self.description.as_str()
    }

    fn parameters(&self) -> (r: ParameterDefinition) {
        ParameterDefinition { param_type: "object".to_owned(), properties: None, required: None }
    }

    fn execute(&self, params: serde_json::Value) -> Result<serde_json::Value, Error> {
        Ok(params)
    }
}

/// A sample tool that turns on the lighting system. Whether the lights
/// are on is a logical state the tool itself would have to track.
pub struct EnableLights;

impl Tool for EnableLights {
    open spec fn spec_name(&self) -> Seq<char> {
        "enable_lights"@
    }

    open spec fn spec_description(&self) -> Seq<char> {
        "Turn on the lighting system."@
    }

    open spec fn spec_parameters(&self) -> ParamModel {
        ParamModel { param_type: "object"@, properties: None, required: None }
    }

    fn name(&self) -> (r: &str) {
        "enable_lights"
    }

    fn description(&self) -> (r: &str) {
        "Turn on the lighting system."
    }

    fn parameters(&self) -> (r: ParameterDefinition) {
        ParameterDefinition { param_type: "object".to_owned(), properties: None, required: None }
    }

    fn execute(&self, _params: serde_json::Value) -> Result<serde_json::Value, Error> {
        Ok(json_bool(true))
    }
}

/// A sample tool that sets the light color; it answers with the argument
/// bag it was given.
pub struct SetLightColor;

impl Tool for SetLightColor {
    open spec fn spec_name(&self) -> Seq<char> {
        "set_light_color"@
    }

    open spec fn spec_description(&self) -> Seq<char> {
        "Set the light color. Lights must be enabled for this to work."@
    }

    open spec fn spec_parameters(&self) -> ParamModel {
        ParamModel {
            param_type: "object"@,
            properties: Some(
                seq![
                    PropertyModel {
                        name: "rgb_hex"@,
                        prop_type: "string"@,
                        description: "The light color as a 6-digit hex string, e.g. ff0000 for red."@,
                    },
                ],
            ),
            required: Some(seq!["rgb_hex"@]),
        }
    }

    fn name(&self) -> (r: &str) {
        "set_light_color"
    }

    fn description(&self) -> (r: &str) {
        "Set the light color. Lights must be enabled for this to work."
    }

    fn parameters(&self) -> (r: ParameterDefinition) {
        let mut properties: Vec<PropertyEntry> = Vec::new();
        properties.push(
            PropertyEntry {
                name: "rgb_hex".to_owned(),
                definition: PropertyDefinition {
                    prop_type: "string".to_owned(),
                    description: "The light color as a 6-digit hex string, e.g. ff0000 for red.".to_owned(),
                },
            },
        );
        let mut required: Vec<String> = Vec::new();
        required.push("rgb_hex".to_owned());
        let result = ParameterDefinition {
            param_type: "object".to_owned(),
            properties: Some(properties),
            required: Some(required),
        };
        proof {
            assert(param_matches(result, self.spec_parameters()));
        }
        result
    }

    fn execute(&self, params: serde_json::Value) -> Result<serde_json::Value, Error> {
        Ok(params)
    }
}

} // verus!
