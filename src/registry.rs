//! The fixed, ordered catalog of tools and the schemas they declare.
use vstd::prelude::*;
use crate::json::{Json, JsonValue, push_item, push_member, text_value, view_fields, view_items};
use crate::text::text_eq;

verus! {

pub const GET_TAGS_DESCRIPTION: &'static str = "Call this tool BEFORE writing any dependency in Cargo.toml/package.json. Returns the latest versions. Use 'limit: 5' to avoid fetching old tags.";
pub const LIMIT_DESCRIPTION: &'static str = "Number of latest tags to return. Default returns ALL (avoid this for large repos).";
pub const GET_CHANGELOG_DESCRIPTION: &'static str = "Analyze commit messages between versions to identify breaking changes, deprecated features, or migration guides.";
pub const GET_README_DESCRIPTION: &'static str = "Read the README to find installation instructions and basic usage examples that are compatible with the fetched version.";
pub const GET_FILE_TREE_DESCRIPTION: &'static str = "Explore the repository structure. Look for 'examples/' or 'tests/' folders to find up-to-date code patterns.";
pub const GET_FILE_CONTENT_DESCRIPTION: &'static str = "Read content of source files (especially in 'examples/'). Use this to verify API syntax and ensure the code you write matches the library version.";
pub const URL_DESCRIPTION: &'static str = "Repository URL";
pub const PATH_DESCRIPTION: &'static str = "Path to the file (e.g., 'src/main.cpp' or 'module.prop')";
pub const BRANCH_DESCRIPTION: &'static str = "Branch name or Tag (e.g., 'v1.0.0'). Defaults to HEAD/main.";
pub const SEARCH_DESCRIPTION: &'static str = "Search for code, functions, or text inside the repository using GitHub Search API.";
pub const QUERY_DESCRIPTION: &'static str = "Text/Code to search (e.g., 'dependencies', 'fn main', 'struct Config')";

/// The number of tools in the catalog.
pub const CATALOG_SIZE: usize = 6;

/// The tools, in the order in which the catalog lists them.
#[derive(PartialEq, Eq, Structural, Clone, Copy, Debug)]
pub enum ToolKind {
    GetTags,
    GetChangelog,
    GetReadme,
    GetFileTree,
    GetFileContent,
    SearchRepository,
}

/// The declared type of a property.
#[derive(PartialEq, Eq, Structural, Clone, Copy, Debug)]
pub enum PropKind {
    Text,
    Integer,
}

pub struct Property {
    pub name: String,
    pub kind: PropKind,
    pub description: Option<String>,
}

pub struct ToolDescriptor {
    pub name: String,
    pub description: String,
    pub properties: Vec<Property>,
    pub required: Vec<String>,
}

pub struct PropertyModel {
    pub name: Seq<char>,
    pub kind: PropKind,
    pub description: Option<Seq<char>>,
}

pub struct DescriptorModel {
    pub name: Seq<char>,
    pub description: Seq<char>,
    pub properties: Seq<PropertyModel>,
    pub required: Seq<Seq<char>>,
}

impl View for Property {
    type V = PropertyModel;

    open spec fn view(&self) -> PropertyModel {
        PropertyModel {
            name: self.name@,
            kind: self.kind,
            description: match self.description {
                Some(d) => Some(d@),
                None => None,
            },
        }
    }
}

impl View for ToolDescriptor {
    type V = DescriptorModel;

    open spec fn view(&self) -> DescriptorModel {
        DescriptorModel {
            name: self.name@,
            description: self.description@,
            properties: self.properties@.map_values(|p: Property| p@),
            required: self.required@.map_values(|s: String| s@),
        }
    }
}

pub open spec fn prop(name: Seq<char>, kind: PropKind, description: Option<Seq<char>>) -> PropertyModel {
    PropertyModel { name, kind, description }
}

pub open spec fn kind_name(k: ToolKind) -> Seq<char> {
    match k {
        ToolKind::GetTags => "get_tags"@,
        ToolKind::GetChangelog => "get_changelog"@,
        ToolKind::GetReadme => "get_readme"@,
        ToolKind::GetFileTree => "get_file_tree"@,
        ToolKind::GetFileContent => "get_file_content"@,
        ToolKind::SearchRepository => "search_repository"@,
    }
}

/// Where a tool stands in the catalog.
pub open spec fn kind_index(k: ToolKind) -> int {
    match k {
        ToolKind::GetTags => 0,
        ToolKind::GetChangelog => 1,
        ToolKind::GetReadme => 2,
        ToolKind::GetFileTree => 3,
        ToolKind::GetFileContent => 4,
        ToolKind::SearchRepository => 5,
    }
}

/// The descriptor of one tool.
pub open spec fn descriptor_model(k: ToolKind) -> DescriptorModel {
    match k {
        ToolKind::GetTags => DescriptorModel {
            name: kind_name(k),
            description: GET_TAGS_DESCRIPTION@,
            properties: seq![
                prop("url"@, PropKind::Text, None),
                prop("limit"@, PropKind::Integer, Some(LIMIT_DESCRIPTION@)),
            ],
            required: seq!["url"@],
        },
        ToolKind::GetChangelog => DescriptorModel {
            name: kind_name(k),
            description: GET_CHANGELOG_DESCRIPTION@,
            properties: seq![
                prop("url"@, PropKind::Text, None),
                prop("start_tag"@, PropKind::Text, None),
                prop("end_tag"@, PropKind::Text, None),
            ],
            required: seq!["url"@, "start_tag"@, "end_tag"@],
        },
        ToolKind::GetReadme => DescriptorModel {
            name: kind_name(k),
            description: GET_README_DESCRIPTION@,
            properties: seq![prop("url"@, PropKind::Text, None)],
            required: seq!["url"@],
        },
        ToolKind::GetFileTree => DescriptorModel {
            name: kind_name(k),
            description: GET_FILE_TREE_DESCRIPTION@,
            properties: seq![
                prop("url"@, PropKind::Text, None),
                prop("branch"@, PropKind::Text, None),
            ],
            required: seq!["url"@],
        },
        ToolKind::GetFileContent => DescriptorModel {
            name: kind_name(k),
            description: GET_FILE_CONTENT_DESCRIPTION@,
            properties: seq![
                prop("url"@, PropKind::Text, Some(URL_DESCRIPTION@)),
                prop("path"@, PropKind::Text, Some(PATH_DESCRIPTION@)),
                prop("branch"@, PropKind::Text, Some(BRANCH_DESCRIPTION@)),
            ],
            required: seq!["url"@, "path"@],
        },
        ToolKind::SearchRepository => DescriptorModel {
            name: kind_name(k),
            description: SEARCH_DESCRIPTION@,
            properties: seq![
                prop("url"@, PropKind::Text, None),
                prop("query"@, PropKind::Text, Some(QUERY_DESCRIPTION@)),
            ],
            required: seq!["url"@, "query"@],
        },
    }
}

/// All tools, in catalog order.
pub open spec fn all_kinds() -> Seq<ToolKind> {
    seq![
        ToolKind::GetTags,
        ToolKind::GetChangelog,
        ToolKind::GetReadme,
        ToolKind::GetFileTree,
        ToolKind::GetFileContent,
        ToolKind::SearchRepository,
    ]
}

/// The catalog: one descriptor per tool, in a fixed order.
pub open spec fn catalog() -> Seq<DescriptorModel> {
    all_kinds().map_values(|k: ToolKind| descriptor_model(k))
}

/// The tool that a name denotes, if any.
pub open spec fn spec_tool_kind(name: Seq<char>) -> Option<ToolKind> {
    if name == "get_tags"@ {
        Some(ToolKind::GetTags)
    } else if name == "get_changelog"@ {
        Some(ToolKind::GetChangelog)
    } else if name == "get_readme"@ {
        Some(ToolKind::GetReadme)
    } else if name == "get_file_tree"@ {
        Some(ToolKind::GetFileTree)
    } else if name == "get_file_content"@ {
        Some(ToolKind::GetFileContent)
    } else if name == "search_repository"@ {
        Some(ToolKind::SearchRepository)
    } else {
        None
    }
}

/// The tool that `name` denotes, if any.
pub fn tool_kind(name: &str) -> (r: Option<ToolKind>)
    ensures
        r == spec_tool_kind(name@),
        r matches Some(k) ==> kind_name(k) == name@,
{
    if text_eq(name, "get_tags") {
        Some(ToolKind::GetTags)
    } else if text_eq(name, "get_changelog") {
        Some(ToolKind::GetChangelog)
    } else if text_eq(name, "get_readme") {
        Some(ToolKind::GetReadme)
    } else if text_eq(name, "get_file_tree") {
        Some(ToolKind::GetFileTree)
    } else if text_eq(name, "get_file_content") {
        Some(ToolKind::GetFileContent)
    } else if text_eq(name, "search_repository") {
        Some(ToolKind::SearchRepository)
    } else {
        None
    }
}

/// Whether the catalog holds a tool named `name`.
pub fn is_known(name: &str) -> (r: bool)
    ensures
        r == (exists|i: int| 0 <= i < catalog().len() && #[trigger] catalog()[i].name == name@),
        r == spec_tool_kind(name@) is Some,
{
    let k = tool_kind(name);
    proof {
        assert(catalog().len() == 6);
        match k {
            Some(kind) => {
                assert(catalog()[kind_index(kind)].name == name@);
            },
            None => {
                assert forall|i: int| 0 <= i < catalog().len() implies #[trigger] catalog()[i].name != name@ by {
                    assert(catalog()[i] == descriptor_model(all_kinds()[i]));
                }
            },
        }
    }
    k.is_some()
}

fn property(name: &str, kind: PropKind, description: Option<&str>) -> (r: Property)
    ensures
        r@ == prop(name@, kind, match description {
            Some(d) => Some(d@),
            None => None,
        }),
{
    Property {
        name: name.to_owned(),
        kind,
        description: match description {
            Some(d) => Some(d.to_owned()),
            None => None,
        },
    }
}

/// The descriptor of one tool.
pub fn describe_kind(k: ToolKind) -> (r: ToolDescriptor)
    ensures
        r@ == descriptor_model(k),
{
    let mut properties: Vec<Property> = Vec::new();
    let mut required: Vec<String> = Vec::new();
    let name: &str;
    let description: &str;
    match k {
        ToolKind::GetTags => {
            name = "get_tags";
            description = GET_TAGS_DESCRIPTION;
            properties.push(property("url", PropKind::Text, None));
            properties.push(property("limit", PropKind::Integer, Some(LIMIT_DESCRIPTION)));
            required.push("url".to_owned());
        },
        ToolKind::GetChangelog => {
            name = "get_changelog";
            description = GET_CHANGELOG_DESCRIPTION;
            properties.push(property("url", PropKind::Text, None));
            properties.push(property("start_tag", PropKind::Text, None));
            properties.push(property("end_tag", PropKind::Text, None));
            required.push("url".to_owned());
            required.push("start_tag".to_owned());
            required.push("end_tag".to_owned());
        },
        ToolKind::GetReadme => {
            name = "get_readme";
            description = GET_README_DESCRIPTION;
            properties.push(property("url", PropKind::Text, None));
            required.push("url".to_owned());
        },
        ToolKind::GetFileTree => {
            name = "get_file_tree";
            description = GET_FILE_TREE_DESCRIPTION;
            properties.push(property("url", PropKind::Text, None));
            properties.push(property("branch", PropKind::Text, None));
            required.push("url".to_owned());
        },
        ToolKind::GetFileContent => {
            name = "get_file_content";
            description = GET_FILE_CONTENT_DESCRIPTION;
            properties.push(property("url", PropKind::Text, Some(URL_DESCRIPTION)));
            properties.push(property("path", PropKind::Text, Some(PATH_DESCRIPTION)));
            properties.push(property("branch", PropKind::Text, Some(BRANCH_DESCRIPTION)));
            required.push("url".to_owned());
            required.push("path".to_owned());
        },
        ToolKind::SearchRepository => {
            name = "search_repository";
            description = SEARCH_DESCRIPTION;
            properties.push(property("url", PropKind::Text, None));
            properties.push(property("query", PropKind::Text, Some(QUERY_DESCRIPTION)));
            required.push("url".to_owned());
            required.push("query".to_owned());
        },
    }
    let r = ToolDescriptor {
        name: name.to_owned(),
        description: description.to_owned(),
        properties,
        required,
    };
    assert(r@.properties =~= descriptor_model(k).properties);
    assert(r@.required =~= descriptor_model(k).required);
    r
}

/// The whole catalog, in its fixed order.
pub fn list_tools() -> (r: Vec<ToolDescriptor>)
    ensures
        r@.len() == CATALOG_SIZE,
        r@.map_values(|d: ToolDescriptor| d@) == catalog(),
{
    let mut r: Vec<ToolDescriptor> = Vec::new();
    r.push(describe_kind(ToolKind::GetTags));
    r.push(describe_kind(ToolKind::GetChangelog));
    r.push(describe_kind(ToolKind::GetReadme));
    r.push(describe_kind(ToolKind::GetFileTree));
    r.push(describe_kind(ToolKind::GetFileContent));
    r.push(describe_kind(ToolKind::SearchRepository));
    assert(r@.map_values(|d: ToolDescriptor| d@) =~= catalog());
    r
}

/// The descriptor of the tool named `name`, if the catalog holds one.
pub fn describe(name: &str) -> (r: Option<ToolDescriptor>)
    ensures
        r is Some == spec_tool_kind(name@) is Some,
        r matches Some(d) ==> d@ == catalog()[kind_index(spec_tool_kind(name@)->0)] && d@.name
            == name@,
{
    match tool_kind(name) {
        Some(k) => Some(describe_kind(k)),
        None => None,
    }
}

pub open spec fn kind_text(k: PropKind) -> Seq<char> {
    match k {
        PropKind::Text => "string"@,
        PropKind::Integer => "integer"@,
    }
}

/// How a property is advertised: its type, and its description where it has one.
pub open spec fn property_json(p: PropertyModel) -> Json {
    Json::Object(
        seq![("type"@, Json::Str(kind_text(p.kind)))] + match p.description {
            Some(d) => seq![("description"@, Json::Str(d))],
            None => Seq::empty(),
        },
    )
}

/// How a descriptor is advertised: its name, description and input schema.
pub open spec fn descriptor_json(d: DescriptorModel) -> Json {
    Json::Object(
        seq![
            ("name"@, Json::Str(d.name)),
            ("description"@, Json::Str(d.description)),
            ("inputSchema"@, Json::Object(
                seq![
                    ("type"@, Json::Str("object"@)),
                    ("properties"@, Json::Object(
                        d.properties.map_values(|p: PropertyModel| (p.name, property_json(p))),
                    )),
                    ("required"@, Json::Array(d.required.map_values(|s: Seq<char>| Json::Str(s)))),
                ],
            )),
        ],
    )
}

/// The result of `tools/list`: the whole catalog, in order.
pub open spec fn tools_list_json() -> Json {
    Json::Object(
        seq![("tools"@, Json::Array(catalog().map_values(|d: DescriptorModel| descriptor_json(d))))],
    )
}

fn property_value(p: &Property) -> (r: JsonValue)
    ensures
        r@ == property_json(p@),
{
    let mut fields: Vec<(String, JsonValue)> = Vec::new();
    let kind = match p.kind {
        PropKind::Text => "string",
        PropKind::Integer => "integer",
    };
    push_member(&mut fields, "type", text_value(kind));
    match &p.description {
        Some(d) => push_member(&mut fields, "description", text_value(d.as_str())),
        None => {},
    }
    let r = JsonValue::Object(fields);
    assert(r@->Object_0 =~= property_json(p@)->Object_0);
    r
}

fn descriptor_value(d: &ToolDescriptor) -> (r: JsonValue)
    ensures
        r@ == descriptor_json(d@),
{
    let mut props: Vec<(String, JsonValue)> = Vec::new();
    let mut i: usize = 0;
    while i < d.properties.len()
        invariant
            0 <= i <= d.properties.len(),
            view_fields(props@) == d@.properties.take(i as int).map_values(
                |p: PropertyModel| (p.name, property_json(p)),
            ),
        decreases d.properties.len() - i,
    {
        let p = &d.properties[i];
        push_member(&mut props, p.name.as_str(), property_value(p));
        assert(d@.properties.take(i + 1).map_values(|p: PropertyModel| (p.name, property_json(p)))
            =~= d@.properties.take(i as int).map_values(|p: PropertyModel| (p.name, property_json(p))).push(
            (d.properties[i as int].name@, property_json(d.properties[i as int]@)),
        ));
        i = i + 1;
    }
    assert(d@.properties.take(i as int) =~= d@.properties);
    let mut req: Vec<JsonValue> = Vec::new();
    let mut j: usize = 0;
    while j < d.required.len()
        invariant
            0 <= j <= d.required.len(),
            view_items(req@) == d@.required.take(j as int).map_values(|s: Seq<char>| Json::Str(s)),
        decreases d.required.len() - j,
    {
        push_item(&mut req, text_value(d.required[j].as_str()));
        assert(d@.required.take(j + 1).map_values(|s: Seq<char>| Json::Str(s)) =~= d@.required.take(
            j as int,
        ).map_values(|s: Seq<char>| Json::Str(s)).push(Json::Str(d.required[j as int]@)));
        j = j + 1;
    }
    assert(d@.required.take(j as int) =~= d@.required);
    let mut schema: Vec<(String, JsonValue)> = Vec::new();
    push_member(&mut schema, "type", text_value("object"));
    push_member(&mut schema, "properties", JsonValue::Object(props));
    push_member(&mut schema, "required", JsonValue::Array(req));
    let mut fields: Vec<(String, JsonValue)> = Vec::new();
    push_member(&mut fields, "name", text_value(d.name.as_str()));
    push_member(&mut fields, "description", text_value(d.description.as_str()));
    let schema_value = JsonValue::Object(schema);
    assert(schema_value@->Object_0 =~= descriptor_json(d@)->Object_0[2].1->Object_0);
    push_member(&mut fields, "inputSchema", schema_value);
    let r = JsonValue::Object(fields);
    assert(r@->Object_0 =~= descriptor_json(d@)->Object_0);
    r
}

/// The result of `tools/list`.
pub fn tools_list_result() -> (r: JsonValue)
    ensures
        r@ == tools_list_json(),
{
    let tools = list_tools();
    let mut items: Vec<JsonValue> = Vec::new();
    let mut i: usize = 0;
    while i < tools.len()
        invariant
            0 <= i <= tools.len(),
            tools@.map_values(|d: ToolDescriptor| d@) == catalog(),
            view_items(items@) == catalog().take(i as int).map_values(
                |d: DescriptorModel| descriptor_json(d),
            ),
        decreases tools.len() - i,
    {
        push_item(&mut items, descriptor_value(&tools[i]));
        assert(tools@.map_values(|d: ToolDescriptor| d@)[i as int] == tools[i as int]@);
        assert(catalog().take(i + 1).map_values(|d: DescriptorModel| descriptor_json(d))
            =~= catalog().take(i as int).map_values(|d: DescriptorModel| descriptor_json(d)).push(
            descriptor_json(catalog()[i as int]),
        ));
        i = i + 1;
    }
    assert(catalog().take(i as int) =~= catalog());
    let mut fields: Vec<(String, JsonValue)> = Vec::new();
    push_member(&mut fields, "tools", JsonValue::Array(items));
    let r = JsonValue::Object(fields);
    assert(r@->Object_0 =~= tools_list_json()->Object_0);
    r
}

} // verus!
