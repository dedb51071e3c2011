//! Tools that agents can call: their names, descriptions and parameters,
//! described as a JSON Schema object.
use vstd::prelude::*;
use crate::keyed::{assoc_put, keys_unique, put_entry, text_keyed};
use crate::text::{to_owned, TextLike};

verus! {

/// A parameter of a tool.
#[derive(Debug)]
pub struct ToolParam {
    /// Parameter type (string, number, integer, boolean, array).
    pub param_type: String,
    /// Parameter description.
    pub description: Option<String>,
    /// Allowed values.
    pub enum_values: Option<Vec<String>>,
    /// Default value.
    pub default: Option<serde_json::Value>,
    /// The items' schema, for arrays.
    pub items: Option<Box<ToolParam>>,
}

/// The parameters of a tool: a JSON Schema object.
#[derive(Debug)]
pub struct ToolParameters {
    /// Schema type.
    pub param_type: String,
    /// The parameters by name, one entry per name.
    pub properties: Vec<(String, ToolParam)>,
    /// The names of the required parameters, in the order they were added.
    pub required: Vec<String>,
}

/// A tool an agent can use.
#[derive(Debug)]
pub struct Tool {
    /// Tool name (must be unique).
    pub name: String,
    /// Description for the model.
    pub description: String,
    /// Parameter schema.
    pub parameters: ToolParameters,
    /// Whether the tool is enabled.
    pub enabled: bool,
}

impl ToolParam {
    fn plain(param_type: &str, description: impl TextLike) -> (r: Self)
        ensures
            r.param_type@ == param_type@,
            r.description matches Some(d) && d@ == description.text(),
            r.enum_values is None,
            r.default is None,
            r.items is None,
    {
        ToolParam {
            param_type: to_owned(param_type),
            description: Some(description.into_string()),
            enum_values: None,
            default: None,
            items: None,
        }
    }

    /// A string parameter.
    pub fn string(description: impl TextLike) -> (r: Self)
        ensures
            r.param_type@ == "string"@,
            r.description matches Some(d) && d@ == description.text(),
            r.enum_values is None,
            r.default is None,
            r.items is None,
    {
        Self::plain("string", description)
    }

    /// A number parameter.
    pub fn number(description: impl TextLike) -> (r: Self)
        ensures
            r.param_type@ == "number"@,
            r.description matches Some(d) && d@ == description.text(),
            r.enum_values is None,
            r.default is None,
            r.items is None,
    {
        Self::plain("number", description)
    }

    /// An integer parameter.
    pub fn integer(description: impl TextLike) -> (r: Self)
        ensures
            r.param_type@ == "integer"@,
            r.description matches Some(d) && d@ == description.text(),
            r.enum_values is None,
            r.default is None,
            r.items is None,
    {
        Self::plain("integer", description)
    }

    /// A boolean parameter.
    pub fn boolean(description: impl TextLike) -> (r: Self)
        ensures
            r.param_type@ == "boolean"@,
            r.description matches Some(d) && d@ == description.text(),
            r.enum_values is None,
            r.default is None,
            r.items is None,
    {
        Self::plain("boolean", description)
    }

    /// A string parameter restricted to the given values, in order.
    pub fn string_enum(description: impl TextLike, values: Vec<&str>) -> (r: Self)
        ensures
            r.param_type@ == "string"@,
            r.description matches Some(d) && d@ == description.text(),
            r.enum_values matches Some(vs) && vs@.map_values(|v: String| v@) == values@.map_values(|v: &str| v@),
            r.default is None,
            r.items is None,
    {
        let mut owned: Vec<String> = Vec::new();
        let mut j: usize = 0;
        while j < values.len()
            invariant
                0 <= j <= values@.len(),
                owned@.len() == j,
                owned@.map_values(|v: String| v@) == values@.take(j as int).map_values(|v: &str| v@),
            decreases values@.len() - j,
        {
            let ghost before = owned@;
            let v = to_owned(values[j]);
            owned.push(v);
            proof {
                assert(owned@[j as int]@ == values@[j as int]@);
                assert forall|i: int| 0 <= i < j implies owned@[i]@ == values@[i]@ by {
                    assert(owned@[i] == before[i]);
                    assert(before.map_values(|v: String| v@)[i] == values@.take(j as int).map_values(|v: &str| v@)[i]);
                }
                assert(owned@.map_values(|v: String| v@) =~= values@.take(j + 1).map_values(|v: &str| v@));
            }
            j = j + 1;
        }
        assert(values@.take(values@.len() as int) =~= values@);
        let mut p = Self::plain("string", description);
        p.enum_values = Some(owned);
        p
    }

    /// An array parameter whose items follow the given schema.
    pub fn array(description: impl TextLike, items: ToolParam) -> (r: Self)
        ensures
            r.param_type@ == "array"@,
            r.description matches Some(d) && d@ == description.text(),
            r.enum_values is None,
            r.default is None,
            r.items == Some(Box::new(items)),
    {
        let mut p = Self::plain("array", description);
        p.items = Some(Box::new(items));
        p
    }

    /// The same parameter with a default value.
    pub fn with_default(self, value: serde_json::Value) -> (r: Self)
        ensures
            r == (ToolParam { default: Some(value), ..self }),
    {
        ToolParam { default: Some(value), ..self }
    }
}

impl ToolParameters {
    /// The parameters, by name.
    pub open spec fn props(&self) -> Seq<(Seq<char>, ToolParam)> {
        text_keyed(self.properties@)
    }

    /// No parameters, and an empty schema type.
    pub fn new() -> (r: Self)
        ensures
            r.param_type@.len() == 0,
            r.props().len() == 0,
            r.required@.len() == 0,
    {
        let r = ToolParameters { param_type: String::new(), properties: Vec::new(), required: Vec::new() };
        assert(r.props() =~= Seq::<(Seq<char>, ToolParam)>::empty());
        r
    }

    /// Add a required parameter: its name joins the required list, and it
    /// replaces a parameter of the same name.
    pub fn add_required(&mut self, name: impl TextLike, param: ToolParam)
        requires
            keys_unique(old(self).props()),
        ensures
            keys_unique(final(self).props()),
            final(self).props() == assoc_put(old(self).props(), name.text(), param),
            final(self).required@.map_values(|s: String| s@) == old(self).required@.map_values(|s: String| s@).push(
                name.text(),
            ),
            final(self).param_type == old(self).param_type,
    {
        let name = name.into_string();
        let ghost req0 = self.required@;
        self.required.push(name.clone());
        assert(self.required@.map_values(|s: String| s@) =~= req0.map_values(|s: String| s@).push(name@));
        put_entry(&mut self.properties, name, param);
    }

    /// Add an optional parameter, replacing one of the same name.
    pub fn add_optional(&mut self, name: impl TextLike, param: ToolParam)
        requires
            keys_unique(old(self).props()),
        ensures
            keys_unique(final(self).props()),
            final(self).props() == assoc_put(old(self).props(), name.text(), param),
            final(self).required == old(self).required,
            final(self).param_type == old(self).param_type,
    {
        put_entry(&mut self.properties, name.into_string(), param);
    }
}

impl Default for ToolParameters {
    fn default() -> (r: Self)
        ensures
            r.param_type@.len() == 0,
            r.props().len() == 0,
            r.required@.len() == 0,
    {
        ToolParameters::new()
    }
}

impl Tool {
    /// An enabled tool with no parameters.
    pub fn new(name: impl TextLike, description: impl TextLike) -> (r: Self)
        ensures
            r.name@ == name.text(),
            r.description@ == description.text(),
            r.parameters.param_type@.len() == 0,
            r.parameters.props().len() == 0,
            r.parameters.required@.len() == 0,
            r.enabled,
    {
        Tool {
            name: name.into_string(),
            description: description.into_string(),
            parameters: ToolParameters::new(),
            enabled: true,
        }
    }

    /// The same tool with a required parameter added.
    pub fn with_param(self, name: impl TextLike, param: ToolParam) -> (r: Self)
        requires
            keys_unique(self.parameters.props()),
        ensures
            keys_unique(r.parameters.props()),
            r.parameters.props() == assoc_put(self.parameters.props(), name.text(), param),
            r.parameters.required@.map_values(|s: String| s@) == self.parameters.required@.map_values(
                |s: String| s@,
            ).push(name.text()),
            r.name == self.name,
            r.description == self.description,
            r.enabled == self.enabled,
    {
        let mut t = self;
        t.parameters.add_required(name, param);
        t
    }

    /// The same tool with an optional parameter added.
    pub fn with_optional_param(self, name: impl TextLike, param: ToolParam) -> (r: Self)
        requires
            keys_unique(self.parameters.props()),
        ensures
            keys_unique(r.parameters.props()),
            r.parameters.props() == assoc_put(self.parameters.props(), name.text(), param),
            r.parameters.required == self.parameters.required,
            r.name == self.name,
            r.description == self.description,
            r.enabled == self.enabled,
    {
        let mut t = self;
        t.parameters.add_optional(name, param);
        t
    }

    /// The same tool with another parameter schema.
    pub fn with_parameters(self, params: ToolParameters) -> (r: Self)
        ensures
            r == (Tool { parameters: params, ..self }),
    {
        Tool { parameters: params, ..self }
    }

    /// The same tool, disabled.
    pub fn disabled(self) -> (r: Self)
        ensures
            r == (Tool { enabled: false, ..self }),
    {
        Tool { enabled: false, ..self }
    }

    /// Whether the tool is enabled.
    pub fn is_enabled(&self) -> (r: bool)
        ensures
            r == self.enabled,
    {
        self.enabled
    }
}

} // verus!
