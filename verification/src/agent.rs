//! Agent cards: what an agent is, what it can do, and how to find it.

use vstd::prelude::*;
use crate::json::{json_of, Json};
use crate::message::{clone_opt_strings, opt_views, CapabilityFilter};
use crate::text::{
    clone_opt_string, concat2, concat3, contains, lowercase_of, opt_view, owned,
    seq_contains, str_eq, to_lowercase, views,
};

verus! {

/// The version of the agent-to-agent protocol that cards announce.
pub const A2A_PROTOCOL_VERSION: &'static str = "0.3.0";

/// The version that the card of the built-in agent announces.
pub const CARD_VERSION: &'static str = "0.1.0";

/// How an agent is reached.
#[derive(Debug, Clone, Copy, PartialEq, Eq, Structural)]
pub enum Transport {
    Pty,
    Stdio,
    WebSocket,
    Http,
}

/// A JSON schema for the input or output of a skill.
#[derive(Debug)]
pub struct JSONSchema {
    pub schema_type: Option<String>,
    pub description: Option<String>,
    pub properties: Option<serde_json::Value>,
    pub required: Option<Vec<String>>,
    pub items: Option<Box<JSONSchema>>,
}

/// The mathematical content of a [`JSONSchema`].
pub struct SchemaView {
    pub schema_type: Option<Seq<char>>,
    pub description: Option<Seq<char>>,
    pub properties: Option<Json>,
    pub required: Option<Seq<Seq<char>>>,
    pub items: Option<Box<SchemaView>>,
}

/// The contents of a schema, and of the schema of its items within it.
pub open spec fn schema_view(s: JSONSchema) -> SchemaView
    decreases s,
{
    SchemaView {
        schema_type: opt_view(s.schema_type),
        description: opt_view(s.description),
        properties: match s.properties {
            Some(p) => Some(json_of(p)),
            None => None,
        },
        required: opt_views(s.required),
        items: match s.items {
            Some(inner) => Some(Box::new(schema_view(*inner))),
            None => None,
        },
    }
}

/// The contents of a schema that may be missing.
pub open spec fn opt_schema_view(s: Option<JSONSchema>) -> Option<SchemaView> {
    match s {
        Some(x) => Some(schema_view(x)),
        None => None,
    }
}

impl View for JSONSchema {
    type V = SchemaView;

    open spec fn view(&self) -> SchemaView {
        schema_view(*self)
    }
}

impl JSONSchema {
    /// The schema of a plain type.
    pub fn simple(schema_type: &str) -> (r: Self)
        ensures
            opt_view(r.schema_type) == Some(schema_type@),
            r.description is None,
            r.properties is None,
            r.required is None,
            r.items is None,
    {
        JSONSchema {
            schema_type: Some(owned(schema_type)),
            description: None,
            properties: None,
            required: None,
            items: None,
        }
    }

    /// The schema of an object with the given properties.
    pub fn object(properties: serde_json::Value) -> (r: Self)
        ensures
            opt_view(r.schema_type) == Some("object"@),
            r.description is None,
            r.properties == Some(properties),
            r.required is None,
            r.items is None,
    {
        JSONSchema {
            schema_type: Some(owned("object")),
            description: None,
            properties: Some(properties),
            required: None,
            items: None,
        }
    }

    /// The same schema with the given description.
    pub fn with_description(self, desc: &str) -> (r: Self)
        ensures
            opt_view(r.description) == Some(desc@),
            r == (JSONSchema { description: r.description, ..self }),
    {
        JSONSchema {
            schema_type: self.schema_type,
            description: Some(owned(desc)),
            properties: self.properties,
            required: self.required,
            items: self.items,
        }
    }

    /// The same schema with the given required properties.
    pub fn with_required(self, required: Vec<String>) -> (r: Self)
        ensures
            r == (JSONSchema { required: Some(required), ..self }),
    {
        JSONSchema {
            schema_type: self.schema_type,
            description: self.description,
            properties: self.properties,
            required: Some(required),
            items: self.items,
        }
    }
}

/// The ways in which an agent authenticates its callers.
#[derive(Debug)]
pub struct Authentication {
    pub schemes: Vec<String>,
}

impl Default for Authentication {
    fn default() -> (r: Self)
        ensures
            r.schemes@.len() == 0,
    {
        Authentication { schemes: Vec::new() }
    }
}

impl Authentication {
    fn one(scheme: &str) -> (r: Self)
        ensures
            views(r.schemes@) == seq![scheme@],
    {
        let mut schemes: Vec<String> = Vec::new();
        schemes.push(owned(scheme));
        proof {
            assert(views(schemes@) =~= seq![scheme@]);
        }
        Authentication { schemes }
    }

    /// Authentication by the given schemes.
    pub fn new(schemes: Vec<String>) -> (r: Self)
        ensures
            r.schemes == schemes,
    {
        Authentication { schemes }
    }

    /// Authentication by API key.
    pub fn api_key() -> (r: Self)
        ensures
            views(r.schemes@) == seq!["apiKey"@],
    {
        Authentication::one("apiKey")
    }

    /// Authentication by OAuth 2.
    pub fn oauth2() -> (r: Self)
        ensures
            views(r.schemes@) == seq!["OAuth2"@],
    {
        Authentication::one("OAuth2")
    }

    /// No authentication.
    pub fn none() -> (r: Self)
        ensures
            views(r.schemes@) == seq!["none"@],
    {
        Authentication::one("none")
    }
}

/// Who provides an agent.
#[derive(Debug)]
pub struct Provider {
    pub organization: String,
    pub url: Option<String>,
}

impl Provider {
    /// A provider without a URL.
    pub fn new(organization: &str) -> (r: Self)
        ensures
            r.organization@ == organization@,
            r.url is None,
    {
        Provider { organization: owned(organization), url: None }
    }

    /// The same provider with the given URL.
    pub fn with_url(self, url: &str) -> (r: Self)
        ensures
            r.organization == self.organization,
            opt_view(r.url) == Some(url@),
    {
        Provider { organization: self.organization, url: Some(owned(url)) }
    }
}

/// The technical features of an agent.
#[derive(Debug, Clone, Copy, PartialEq, Eq, Structural)]
pub struct AgentCapabilities {
    pub streaming: bool,
    pub push_notifications: bool,
    pub state_transition_history: bool,
}

impl Default for AgentCapabilities {
    fn default() -> (r: Self)
        ensures
            r == (AgentCapabilities {
                streaming: false,
                push_notifications: false,
                state_transition_history: false,
            }),
    {
        AgentCapabilities {
            streaming: false,
            push_notifications: false,
            state_transition_history: false,
        }
    }
}

impl AgentCapabilities {
    /// No features.
    pub fn new() -> (r: Self)
        ensures
            r == (AgentCapabilities {
                streaming: false,
                push_notifications: false,
                state_transition_history: false,
            }),
    {
        AgentCapabilities {
            streaming: false,
            push_notifications: false,
            state_transition_history: false,
        }
    }

    /// The same features, with or without streaming.
    pub fn with_streaming(self, streaming: bool) -> (r: Self)
        ensures
            r == (AgentCapabilities { streaming, ..self }),
    {
        AgentCapabilities { streaming, ..self }
    }

    /// The same features, with or without push notifications.
    pub fn with_push_notifications(self, push_notifications: bool) -> (r: Self)
        ensures
            r == (AgentCapabilities { push_notifications, ..self }),
    {
        AgentCapabilities { push_notifications, ..self }
    }

    /// The same features, with or without a history of state transitions.
    pub fn with_state_transition_history(self, history: bool) -> (r: Self)
        ensures
            r == (AgentCapabilities { state_transition_history: history, ..self }),
    {
        AgentCapabilities { state_transition_history: history, ..self }
    }
}

/// Something that an agent can do.
#[derive(Debug)]
pub struct Skill {
    pub id: String,
    pub name: String,
    pub description: Option<String>,
    pub tags: Option<Vec<String>>,
    pub examples: Option<Vec<String>>,
    pub input_schema: Option<JSONSchema>,
    pub output_schema: Option<JSONSchema>,
    pub input_modes: Option<Vec<String>>,
    pub output_modes: Option<Vec<String>>,
}

/// The mathematical content of a [`Skill`].
pub struct SkillView {
    pub id: Seq<char>,
    pub name: Seq<char>,
    pub description: Option<Seq<char>>,
    pub tags: Option<Seq<Seq<char>>>,
    pub examples: Option<Seq<Seq<char>>>,
    pub input_modes: Option<Seq<Seq<char>>>,
    pub output_modes: Option<Seq<Seq<char>>>,
    pub input_schema: Option<SchemaView>,
    pub output_schema: Option<SchemaView>,
}

impl View for Skill {
    type V = SkillView;

    open spec fn view(&self) -> SkillView {
        SkillView {
            id: self.id@,
            name: self.name@,
            description: opt_view(self.description),
            tags: opt_views(self.tags),
            examples: opt_views(self.examples),
            input_modes: opt_views(self.input_modes),
            output_modes: opt_views(self.output_modes),
            input_schema: opt_schema_view(self.input_schema),
            output_schema: opt_schema_view(self.output_schema),
        }
    }
}

/// The contents of a list of skills.
pub open spec fn skills_view(s: Seq<Skill>) -> Seq<SkillView> {
    Seq::new(s.len(), |i: int| s[i]@)
}

/// The tags of a skill; none where it has no list of tags.
pub open spec fn tags_of(s: SkillView) -> Seq<Seq<char>> {
    match s.tags {
        Some(t) => t,
        None => Seq::empty(),
    }
}

fn list_has(list: &Vec<String>, item: &str) -> (r: bool)
    ensures
        r == views(list@).contains(item@),
{
    let mut i: usize = 0;
    while i < list.len()
        invariant
            0 <= i <= list.len(),
            forall|k: int| 0 <= k < i ==> views(list@)[k] != item@,
        decreases list.len() - i,
    {
        if str_eq(list[i].as_str(), item) {
            assert(views(list@)[i as int] == item@);
            return true;
        }
        i = i + 1;
    }
    false
}

impl Skill {
    /// A skill with an id and a name, and nothing else.
    pub fn new(id: &str, name: &str) -> (r: Self)
        ensures
            r@ == (SkillView {
                id: id@,
                name: name@,
                description: None,
                tags: None,
                examples: None,
                input_modes: None,
                output_modes: None,
                input_schema: None,
                output_schema: None,
            }),
    {
        Skill {
            id: owned(id),
            name: owned(name),
            description: None,
            tags: None,
            examples: None,
            input_schema: None,
            output_schema: None,
            input_modes: None,
            output_modes: None,
        }
    }

    /// The same skill with the given description.
    pub fn with_description(self, desc: &str) -> (r: Self)
        ensures
            r@ == (SkillView { description: Some(desc@), ..self@ }),
            r.input_schema == self.input_schema,
            r.output_schema == self.output_schema,
    {
        let mut s = self;
        s.description = Some(owned(desc));
        s
    }

    /// The same skill with the given tags.
    pub fn with_tags(self, tags: Vec<String>) -> (r: Self)
        ensures
            r == (Skill { tags: Some(tags), ..self }),
    {
        let mut s = self;
        s.tags = Some(tags);
        s
    }

    /// The same skill with the given example prompts.
    pub fn with_examples(self, examples: Vec<String>) -> (r: Self)
        ensures
            r == (Skill { examples: Some(examples), ..self }),
    {
        let mut s = self;
        s.examples = Some(examples);
        s
    }

    /// The same skill with the given schema of its input.
    pub fn with_input_schema(self, schema: JSONSchema) -> (r: Self)
        ensures
            r == (Skill { input_schema: Some(schema), ..self }),
    {
        let mut s = self;
        s.input_schema = Some(schema);
        s
    }

    /// The same skill with the given schema of its output.
    pub fn with_output_schema(self, schema: JSONSchema) -> (r: Self)
        ensures
            r == (Skill { output_schema: Some(schema), ..self }),
    {
        let mut s = self;
        s.output_schema = Some(schema);
        s
    }

    /// The same skill with the given input modes.
    pub fn with_input_modes(self, modes: Vec<String>) -> (r: Self)
        ensures
            r == (Skill { input_modes: Some(modes), ..self }),
    {
        let mut s = self;
        s.input_modes = Some(modes);
        s
    }

    /// The same skill with the given output modes.
    pub fn with_output_modes(self, modes: Vec<String>) -> (r: Self)
        ensures
            r == (Skill { output_modes: Some(modes), ..self }),
    {
        let mut s = self;
        s.output_modes = Some(modes);
        s
    }

    /// True when the skill carries the tag.
    pub fn has_tag(&self, tag: &str) -> (r: bool)
        ensures
            r == tags_of(self@).contains(tag@),
    {
        match &self.tags {
            Some(t) => list_has(t, tag),
            None => {
                proof {
                    assert(!Seq::<Seq<char>>::empty().contains(tag@));
                }
                false
            },
        }
    }

    /// True when the skill carries one of the tags.
    fn has_any_tag(&self, wanted: &Vec<String>) -> (r: bool)
        ensures
            r == carries_one_of(self@, views(wanted@)),
    {
        match &self.tags {
            Some(tags) => {
                let mut i: usize = 0;
                while i < tags.len()
                    invariant
                        0 <= i <= tags.len(),
                        self.tags == Some(*tags),
                        forall|k: int|
                            0 <= k < i ==> !views(wanted@).contains(#[trigger] tags_of(self@)[k]),
                    decreases tags.len() - i,
                {
                    if list_has(wanted, tags[i].as_str()) {
                        assert(views(wanted@).contains(tags_of(self@)[i as int]));
                        return true;
                    }
                    i = i + 1;
                }
                false
            },
            None => false,
        }
    }
}

/// True when the skill carries one of the tags of `wanted`.
pub open spec fn carries_one_of(s: SkillView, wanted: Seq<Seq<char>>) -> bool {
    exists|k: int| 0 <= k < tags_of(s).len() && wanted.contains(#[trigger] tags_of(s)[k])
}

/// The identity document of an agent.
#[derive(Debug)]
pub struct AgentCard {
    pub name: String,
    pub description: Option<String>,
    pub url: String,
    pub version: String,
    pub protocol_version: String,
    pub provider: Option<Provider>,
    pub capabilities: Option<AgentCapabilities>,
    pub authentication: Option<Authentication>,
    pub default_input_modes: Option<Vec<String>>,
    pub default_output_modes: Option<Vec<String>>,
    pub skills: Option<Vec<Skill>>,
    pub id: Option<String>,
    pub transport: Option<Transport>,
}

impl AgentCard {
    /// The skills of the card; none where it has no list of skills.
    pub open spec fn skill_list(&self) -> Seq<SkillView> {
        match self.skills {
            Some(s) => skills_view(s@),
            None => Seq::empty(),
        }
    }

    /// True when the card lists a skill of the given id.
    pub open spec fn offers(&self, skill_id: Seq<char>) -> bool {
        exists|i: int| 0 <= i < self.skill_list().len() && (#[trigger] self.skill_list()[i]).id == skill_id
    }

    /// True when the card lists every skill of `ids`.
    pub open spec fn offers_all(&self, ids: Seq<Seq<char>>) -> bool {
        forall|k: int| 0 <= k < ids.len() ==> self.offers(#[trigger] ids[k])
    }

    /// True when the card lists one of the skills of `ids`.
    pub open spec fn offers_any(&self, ids: Seq<Seq<char>>) -> bool {
        exists|i: int|
            0 <= i < self.skill_list().len() && ids.contains((#[trigger] self.skill_list()[i]).id)
    }

    /// True when a skill of the card carries one of the tags.
    pub open spec fn carries_tag_of(&self, tags: Seq<Seq<char>>) -> bool {
        exists|i: int|
            0 <= i < self.skill_list().len() && carries_one_of(#[trigger] self.skill_list()[i], tags)
    }

    /// True when the name or the id of the card holds `agent_type`, case
    /// aside.
    pub open spec fn is_of_type(&self, agent_type: Seq<char>) -> bool {
        seq_contains(lowercase_of(self.name@), lowercase_of(agent_type)) || match self.id {
            Some(id) => seq_contains(lowercase_of(id@), lowercase_of(agent_type)),
            None => false,
        }
    }

    /// True when the card has all the skills that are asked for, one of the
    /// tags that are asked for, and the type that is asked for.
    pub open spec fn passes(
        &self,
        capabilities: Option<Seq<Seq<char>>>,
        tags: Option<Seq<Seq<char>>>,
        agent_type: Option<Seq<char>>,
    ) -> bool {
        &&& capabilities matches Some(c) ==> self.offers_all(c)
        &&& tags matches Some(t) ==> self.carries_tag_of(t)
        &&& agent_type matches Some(a) ==> self.is_of_type(a)
    }

    /// A card with a name and a URL, version 1.0.0, and nothing else.
    pub fn new(name: &str, url: &str) -> (r: Self)
        ensures
            r.name@ == name@,
            r.url@ == url@,
            r.version@ == "1.0.0"@,
            r.protocol_version@ == A2A_PROTOCOL_VERSION@,
            r.description is None,
            r.provider is None,
            r.capabilities is None,
            r.authentication is None,
            r.default_input_modes is None,
            r.default_output_modes is None,
            r.skills is None,
            r.id is None,
            r.transport is None,
    {
        AgentCard {
            name: owned(name),
            description: None,
            url: owned(url),
            version: owned("1.0.0"),
            protocol_version: owned(A2A_PROTOCOL_VERSION),
            provider: None,
            capabilities: None,
            authentication: None,
            default_input_modes: None,
            default_output_modes: None,
            skills: None,
            id: None,
            transport: None,
        }
    }

    /// The same card with the given description.
    pub fn with_description(self, desc: &str) -> (r: Self)
        ensures
            opt_view(r.description) == Some(desc@),
            r == (AgentCard { description: r.description, ..self }),
    {
        let mut c = self;
        c.description = Some(owned(desc));
        c
    }

    /// The same card with the given version.
    pub fn with_version(self, version: &str) -> (r: Self)
        ensures
            r.version@ == version@,
            r == (AgentCard { version: r.version, ..self }),
    {
        let mut c = self;
        c.version = owned(version);
        c
    }

    /// The same card with the given provider.
    pub fn with_provider(self, provider: Provider) -> (r: Self)
        ensures
            r == (AgentCard { provider: Some(provider), ..self }),
    {
        let mut c = self;
        c.provider = Some(provider);
        c
    }

    /// The same card with the given features.
    pub fn with_capabilities(self, capabilities: AgentCapabilities) -> (r: Self)
        ensures
            r == (AgentCard { capabilities: Some(capabilities), ..self }),
    {
        let mut c = self;
        c.capabilities = Some(capabilities);
        c
    }

    /// The same card with the given authentication.
    pub fn with_authentication(self, auth: Authentication) -> (r: Self)
        ensures
            r == (AgentCard { authentication: Some(auth), ..self }),
    {
        let mut c = self;
        c.authentication = Some(auth);
        c
    }

    /// The same card with the given default input modes.
    pub fn with_default_input_modes(self, modes: Vec<String>) -> (r: Self)
        ensures
            r == (AgentCard { default_input_modes: Some(modes), ..self }),
    {
        let mut c = self;
        c.default_input_modes = Some(modes);
        c
    }

    /// The same card with the given default output modes.
    pub fn with_default_output_modes(self, modes: Vec<String>) -> (r: Self)
        ensures
            r == (AgentCard { default_output_modes: Some(modes), ..self }),
    {
        let mut c = self;
        c.default_output_modes = Some(modes);
        c
    }

    /// The same card with one more skill at the end of its list.
    pub fn with_skill(self, skill: Skill) -> (r: Self)
        ensures
            r.skill_list() == self.skill_list().push(skill@),
            r.skills is Some,
            r == (AgentCard { skills: r.skills, ..self }),
    {
        let mut c = self;
        let mut list = match c.skills {
            Some(l) => l,
            None => Vec::new(),
        };
        let ghost before = skills_view(list@);
        list.push(skill);
        proof {
            assert(before =~= self.skill_list());
            assert(skills_view(list@) =~= before.push(skill@));
        }
        c.skills = Some(list);
        c
    }

    /// The same card with the given skills at the end of its list.
    pub fn with_skills(self, skills: Vec<Skill>) -> (r: Self)
        ensures
            r.skill_list() == self.skill_list() + skills_view(skills@),
            r.skills is Some,
            r == (AgentCard { skills: r.skills, ..self }),
    {
        let mut c = self;
        let mut list = match c.skills {
            Some(l) => l,
            None => Vec::new(),
        };
        let ghost before = skills_view(list@);
        let mut more = skills;
        list.append(&mut more);
        proof {
            assert(before =~= self.skill_list());
            assert(skills_view(list@) =~= before + skills_view(skills@));
        }
        c.skills = Some(list);
        c
    }

    /// The same card with the given id.
    pub fn with_id(self, id: &str) -> (r: Self)
        ensures
            opt_view(r.id) == Some(id@),
            r == (AgentCard { id: r.id, ..self }),
    {
        let mut c = self;
        c.id = Some(owned(id));
        c
    }

    /// The same card with the given transport.
    pub fn with_transport(self, transport: Transport) -> (r: Self)
        ensures
            r == (AgentCard { transport: Some(transport), ..self }),
    {
        let mut c = self;
        c.transport = Some(transport);
        c
    }

    /// True when the card lists a skill of the given id.
    pub fn has_skill(&self, skill_id: &str) -> (r: bool)
        ensures
            r == self.offers(skill_id@),
    {
        match &self.skills {
            Some(skills) => {
                let mut i: usize = 0;
                while i < skills.len()
                    invariant
                        0 <= i <= skills.len(),
                        self.skills == Some(*skills),
                        forall|k: int| 0 <= k < i ==> (#[trigger] self.skill_list()[k]).id != skill_id@,
                    decreases skills.len() - i,
                {
                    if str_eq(skills[i].id.as_str(), skill_id) {
                        assert(self.skill_list()[i as int].id == skill_id@);
                        return true;
                    }
                    i = i + 1;
                }
                false
            },
            None => false,
        }
    }

    /// True when the card lists one of the skills of `skill_ids`.
    pub fn has_any_skill(&self, skill_ids: &Vec<String>) -> (r: bool)
        ensures
            r == self.offers_any(views(skill_ids@)),
    {
        match &self.skills {
            Some(skills) => {
                let mut i: usize = 0;
                while i < skills.len()
                    invariant
                        0 <= i <= skills.len(),
                        self.skills == Some(*skills),
                        forall|k: int|
                            0 <= k < i ==> !views(skill_ids@).contains(
                                (#[trigger] self.skill_list()[k]).id,
                            ),
                    decreases skills.len() - i,
                {
                    if list_has(skill_ids, skills[i].id.as_str()) {
                        assert(views(skill_ids@).contains(self.skill_list()[i as int].id));
                        return true;
                    }
                    i = i + 1;
                }
                false
            },
            None => false,
        }
    }

    /// True when the card lists every skill of `skill_ids`.
    pub fn has_all_skills(&self, skill_ids: &Vec<String>) -> (r: bool)
        ensures
            r == self.offers_all(views(skill_ids@)),
    {
        let mut k: usize = 0;
        while k < skill_ids.len()
            invariant
                0 <= k <= skill_ids.len(),
                forall|j: int| 0 <= j < k ==> self.offers(#[trigger] views(skill_ids@)[j]),
            decreases skill_ids.len() - k,
        {
            if !self.has_skill(skill_ids[k].as_str()) {
                assert(!self.offers(views(skill_ids@)[k as int]));
                return false;
            }
            k = k + 1;
        }
        true
    }

    /// True when the card lists the skill `skill_id` and that skill carries
    /// the tag.
    pub fn has_skill_with_tag(&self, skill_id: &str, tag: &str) -> (r: bool)
        ensures
            r == (exists|i: int|
                0 <= i < self.skill_list().len() && (#[trigger] self.skill_list()[i]).id == skill_id@
                    && tags_of(self.skill_list()[i]).contains(tag@)),
    {
        match &self.skills {
            Some(skills) => {
                let mut i: usize = 0;
                while i < skills.len()
                    invariant
                        0 <= i <= skills.len(),
                        self.skills == Some(*skills),
                        forall|k: int|
                            0 <= k < i ==> !((#[trigger] self.skill_list()[k]).id == skill_id@
                                && tags_of(self.skill_list()[k]).contains(tag@)),
                    decreases skills.len() - i,
                {
                    if str_eq(skills[i].id.as_str(), skill_id) && skills[i].has_tag(tag) {
                        assert(self.skill_list()[i as int].id == skill_id@ && tags_of(
                            self.skill_list()[i as int],
                        ).contains(tag@));
                        return true;
                    }
                    i = i + 1;
                }
                false
            },
            None => false,
        }
    }

    fn has_tag_of(&self, tags: &Vec<String>) -> (r: bool)
        ensures
            r == self.carries_tag_of(views(tags@)),
    {
        match &self.skills {
            Some(skills) => {
                let mut i: usize = 0;
                while i < skills.len()
                    invariant
                        0 <= i <= skills.len(),
                        self.skills == Some(*skills),
                        forall|k: int|
                            0 <= k < i ==> !carries_one_of(
                                #[trigger] self.skill_list()[k],
                                views(tags@),
                            ),
                    decreases skills.len() - i,
                {
                    if skills[i].has_any_tag(tags) {
                        assert(carries_one_of(self.skill_list()[i as int], views(tags@)));
                        return true;
                    }
                    i = i + 1;
                }
                false
            },
            None => false,
        }
    }

    fn has_type(&self, agent_type: &str) -> (r: bool)
        ensures
            r == self.is_of_type(agent_type@),
    {
        let wanted = to_lowercase(agent_type);
        if contains(to_lowercase(self.name.as_str()).as_str(), wanted.as_str()) {
            return true;
        }
        match &self.id {
            Some(id) => contains(to_lowercase(id.as_str()).as_str(), wanted.as_str()),
            None => false,
        }
    }

    fn passes_all(&self, capabilities: &Option<Vec<String>>, tags: &Option<Vec<String>>, agent_type: &Option<
        String,
    >) -> (r: bool)
        ensures
            r == self.passes(opt_views(*capabilities), opt_views(*tags), opt_view(*agent_type)),
    {
        match capabilities {
            Some(c) => {
                if !self.has_all_skills(c) {
                    return false;
                }
            },
            None => {},
        }
        match tags {
            Some(t) => {
                if !self.has_tag_of(t) {
                    return false;
                }
            },
            None => {},
        }
        match agent_type {
            Some(a) => {
                if !self.has_type(a.as_str()) {
                    return false;
                }
            },
            None => {},
        }
        true
    }

    /// True when the card passes the filter.
    pub fn matches_filter(&self, filter: &CapabilityFilter) -> (r: bool)
        ensures
            r == self.passes(
                opt_views(filter.capabilities),
                opt_views(filter.tags),
                opt_view(filter.agent_type),
            ),
    {
        self.passes_all(&filter.capabilities, &filter.tags, &filter.agent_type)
    }
}

/// A query for agents.
#[derive(Debug)]
pub struct DiscoveryQuery {
    pub capabilities: Option<Vec<String>>,
    pub tags: Option<Vec<String>>,
    pub agent_type: Option<String>,
    pub streaming: Option<bool>,
    pub push_notifications: Option<bool>,
    pub transport: Option<Transport>,
}

impl Default for DiscoveryQuery {
    fn default() -> (r: Self)
        ensures
            r.capabilities is None,
            r.tags is None,
            r.agent_type is None,
            r.streaming is None,
            r.push_notifications is None,
            r.transport is None,
    {
        DiscoveryQuery {
            capabilities: None,
            tags: None,
            agent_type: None,
            streaming: None,
            push_notifications: None,
            transport: None,
        }
    }
}

impl DiscoveryQuery {
    /// True when the card answers the query: it has the features that are
    /// asked for, passes the filter of skills, tags and type, and uses the
    /// transport that is asked for.
    pub open spec fn answered_by(&self, card: &AgentCard) -> bool {
        &&& self.streaming == Some(true) ==> (card.capabilities matches Some(c) && c.streaming)
        &&& self.push_notifications == Some(true) ==> (card.capabilities matches Some(c)
            && c.push_notifications)
        &&& card.passes(opt_views(self.capabilities), opt_views(self.tags), opt_view(self.agent_type))
        &&& self.transport matches Some(t) ==> card.transport == Some(t)
    }

    /// A query that every agent answers.
    pub fn new() -> (r: Self)
        ensures
            r.capabilities is None,
            r.tags is None,
            r.agent_type is None,
            r.streaming is None,
            r.push_notifications is None,
            r.transport is None,
    {
        DiscoveryQuery {
            capabilities: None,
            tags: None,
            agent_type: None,
            streaming: None,
            push_notifications: None,
            transport: None,
        }
    }

    /// The same query, asking for all of the given skills.
    pub fn with_capabilities(self, capabilities: Vec<String>) -> (r: Self)
        ensures
            r == (DiscoveryQuery { capabilities: Some(capabilities), ..self }),
    {
        let mut q = self;
        q.capabilities = Some(capabilities);
        q
    }

    /// The same query, asking for one of the given tags.
    pub fn with_tags(self, tags: Vec<String>) -> (r: Self)
        ensures
            r == (DiscoveryQuery { tags: Some(tags), ..self }),
    {
        let mut q = self;
        q.tags = Some(tags);
        q
    }

    /// The same query, asking for the given agent type.
    pub fn with_agent_type(self, agent_type: &str) -> (r: Self)
        ensures
            opt_view(r.agent_type) == Some(agent_type@),
            r == (DiscoveryQuery { agent_type: r.agent_type, ..self }),
    {
        let mut q = self;
        q.agent_type = Some(owned(agent_type));
        q
    }

    /// The same query, asking for streaming or not.
    pub fn with_streaming(self, streaming: bool) -> (r: Self)
        ensures
            r == (DiscoveryQuery { streaming: Some(streaming), ..self }),
    {
        let mut q = self;
        q.streaming = Some(streaming);
        q
    }

    /// The same query, asking for push notifications or not.
    pub fn with_push_notifications(self, push_notifications: bool) -> (r: Self)
        ensures
            r == (DiscoveryQuery { push_notifications: Some(push_notifications), ..self }),
    {
        let mut q = self;
        q.push_notifications = Some(push_notifications);
        q
    }

    /// The same query, asking for the given transport.
    pub fn with_transport(self, transport: Transport) -> (r: Self)
        ensures
            r == (DiscoveryQuery { transport: Some(transport), ..self }),
    {
        let mut q = self;
        q.transport = Some(transport);
        q
    }

    /// The filter of skills, tags and type that the query holds.
    pub fn to_capability_filter(&self) -> (r: CapabilityFilter)
        ensures
            opt_views(r.capabilities) == opt_views(self.capabilities),
            opt_views(r.tags) == opt_views(self.tags),
            opt_view(r.agent_type) == opt_view(self.agent_type),
    {
        CapabilityFilter {
            capabilities: clone_opt_strings(&self.capabilities),
            tags: clone_opt_strings(&self.tags),
            agent_type: clone_opt_string(&self.agent_type),
        }
    }

    /// True when the card answers the query.
    pub fn matches(&self, card: &AgentCard) -> (r: bool)
        ensures
            r == self.answered_by(card),
    {
        match self.streaming {
            Some(true) => {
                let supported = match &card.capabilities {
                    Some(c) => c.streaming,
                    None => false,
                };
                if !supported {
                    return false;
                }
            },
            _ => {},
        }
        match self.push_notifications {
            Some(true) => {
                let supported = match &card.capabilities {
                    Some(c) => c.push_notifications,
                    None => false,
                };
                if !supported {
                    return false;
                }
            },
            _ => {},
        }
        if !card.passes_all(&self.capabilities, &self.tags, &self.agent_type) {
            return false;
        }
        match self.transport {
            Some(t) => match card.transport {
                Some(u) => t == u,
                None => false,
            },
            None => true,
        }
    }
}

fn one(a: &str) -> (r: Vec<String>)
    ensures
        views(r@) == seq![a@],
{
    let mut v: Vec<String> = Vec::new();
    v.push(owned(a));
    proof {
        assert(views(v@) =~= seq![a@]);
    }
    v
}

fn two(a: &str, b: &str) -> (r: Vec<String>)
    ensures
        views(r@) == seq![a@, b@],
{
    let mut v: Vec<String> = Vec::new();
    v.push(owned(a));
    v.push(owned(b));
    proof {
        assert(views(v@) =~= seq![a@, b@]);
    }
    v
}

/// A skill of a built-in card.
pub open spec fn listed_skill(
    id: Seq<char>,
    name: Seq<char>,
    description: Option<Seq<char>>,
    tags: Seq<Seq<char>>,
    examples: Option<Seq<Seq<char>>>,
    input_modes: Option<Seq<Seq<char>>>,
    output_modes: Option<Seq<Seq<char>>>,
) -> SkillView {
    SkillView {
        id,
        name,
        description,
        tags: Some(tags),
        examples,
        input_modes,
        output_modes,
        input_schema: None,
        output_schema: None,
    }
}

/// The skills of the card of the command-line coding agent.
pub open spec fn claude_code_skills() -> Seq<SkillView> {
    seq![
        listed_skill(
            "translation"@,
            "Translation"@,
            Some("Translate text between languages"@),
            seq!["multilingual"@],
            Some(seq!["Translate this text to Japanese"@]),
            Some(seq!["text/plain"@]),
            Some(seq!["text/plain"@]),
        ),
        listed_skill(
            "code-generation"@,
            "Code Generation"@,
            Some("Generate code in various programming languages"@),
            seq!["programming"@, "coding"@],
            Some(seq!["Write a Python function to sort a list"@]),
            Some(seq!["text/plain"@]),
            Some(seq!["text/plain"@, "application/json"@]),
        ),
        listed_skill(
            "code-review"@,
            "Code Review"@,
            Some("Review code for quality and best practices"@),
            seq!["programming"@],
            Some(seq!["Review this pull request for potential issues"@]),
            None,
            None,
        ),
        listed_skill(
            "analysis"@,
            "Analysis"@,
            Some("Analyze code, data, or text"@),
            seq!["analysis"@],
            Some(seq!["Analyze the architecture of this codebase"@]),
            None,
            None,
        ),
        listed_skill(
            "writing"@,
            "Writing"@,
            Some("Generate written content"@),
            seq!["content"@],
            Some(seq!["Write documentation for this API"@]),
            None,
            None,
        ),
        listed_skill(
            "summarization"@,
            "Summarization"@,
            Some("Summarize long texts or documents"@),
            seq!["content"@],
            Some(seq!["Summarize this research paper"@]),
            None,
            None,
        ),
    ]
}

/// The skills of the card of the Codex agent.
pub open spec fn codex_skills() -> Seq<SkillView> {
    seq![
        listed_skill(
            "code-generation"@,
            "Code Generation"@,
            None,
            seq!["programming"@],
            None,
            None,
            None,
        ),
        listed_skill("code-review"@, "Code Review"@, None, seq!["programming"@], None, None, None),
        listed_skill(
            "debugging"@,
            "Debugging"@,
            None,
            seq!["programming"@],
            Some(seq!["Find the bug in this code"@]),
            None,
            None,
        ),
    ]
}

impl AgentCard {
    /// The card of the command-line coding agent at the given instance.
    pub fn claude_code(instance_id: &str) -> (r: Self)
        ensures
            r.name@ == "Code Agent ("@ + instance_id@ + ")"@,
            opt_view(r.id) == Some("code-agent@localhost/"@ + instance_id@),
            r.url@ == "acp://"@ + "code-agent@localhost/"@ + instance_id@,
            opt_view(r.description) == Some("Anthropic's command-line coding agent"@),
            r.version@ == CARD_VERSION@,
            r.protocol_version@ == A2A_PROTOCOL_VERSION@,
            r.provider matches Some(p) && p.organization@ == "Anthropic"@ && opt_view(p.url) == Some(
                "https://anthropic.com"@,
            ),
            r.capabilities == Some(
                AgentCapabilities {
                    streaming: true,
                    push_notifications: false,
                    state_transition_history: true,
                },
            ),
            r.authentication matches Some(a) && views(a.schemes@) == seq!["none"@],
            opt_views(r.default_input_modes) == Some(seq!["text/plain"@]),
            opt_views(r.default_output_modes) == Some(seq!["text/plain"@, "application/json"@]),
            r.transport == Some(Transport::Pty),
            r.skill_list() == claude_code_skills(),
    {
        let id = concat2("code-agent@localhost/", instance_id);
        let url = concat2("acp://", id.as_str());
        let mut skills: Vec<Skill> = Vec::new();
        skills.push(
            Skill::new("translation", "Translation").with_description(
                "Translate text between languages",
            ).with_tags(one("multilingual")).with_examples(
                one("Translate this text to Japanese"),
            ).with_input_modes(one("text/plain")).with_output_modes(one("text/plain")),
        );
        skills.push(
            Skill::new("code-generation", "Code Generation").with_description(
                "Generate code in various programming languages",
            ).with_tags(two("programming", "coding")).with_examples(
                one("Write a Python function to sort a list"),
            ).with_input_modes(one("text/plain")).with_output_modes(
                two("text/plain", "application/json"),
            ),
        );
        skills.push(
            Skill::new("code-review", "Code Review").with_description(
                "Review code for quality and best practices",
            ).with_tags(one("programming")).with_examples(
                one("Review this pull request for potential issues"),
            ),
        );
        skills.push(
            Skill::new("analysis", "Analysis").with_description(
                "Analyze code, data, or text",
            ).with_tags(one("analysis")).with_examples(
                one("Analyze the architecture of this codebase"),
            ),
        );
        skills.push(
            Skill::new("writing", "Writing").with_description("Generate written content").with_tags(
                one("content"),
            ).with_examples(one("Write documentation for this API")),
        );
        skills.push(
            Skill::new("summarization", "Summarization").with_description(
                "Summarize long texts or documents",
            ).with_tags(one("content")).with_examples(one("Summarize this research paper")),
        );
        proof {
            assert(skills_view(skills@) =~= claude_code_skills());
        }
        let name = concat3("Code Agent (", instance_id, ")");
        let r = AgentCard::new(name.as_str(), url.as_str()).with_id(id.as_str()).with_description(
            "Anthropic's command-line coding agent",
        ).with_version(CARD_VERSION).with_provider(
            Provider::new("Anthropic").with_url("https://anthropic.com"),
        ).with_capabilities(
            AgentCapabilities::new().with_streaming(true).with_state_transition_history(true),
        ).with_authentication(Authentication::none()).with_default_input_modes(
            one("text/plain"),
        ).with_default_output_modes(two("text/plain", "application/json")).with_transport(
            Transport::Pty,
        ).with_skills(skills);
        proof {
            assert(r.skill_list() =~= claude_code_skills());
        }
        r
    }

    /// The card of the Codex agent at the given instance.
    pub fn codex(instance_id: &str) -> (r: Self)
        ensures
            r.name@ == "Codex ("@ + instance_id@ + ")"@,
            opt_view(r.id) == Some("codex@localhost/"@ + instance_id@),
            r.url@ == "acp://"@ + "codex@localhost/"@ + instance_id@,
            opt_view(r.description) == Some("OpenAI Codex agent"@),
            r.version@ == "1.0.0"@,
            r.protocol_version@ == A2A_PROTOCOL_VERSION@,
            r.provider matches Some(p) && p.organization@ == "OpenAI"@ && opt_view(p.url) == Some(
                "https://openai.com"@,
            ),
            r.capabilities == Some(
                AgentCapabilities {
                    streaming: true,
                    push_notifications: false,
                    state_transition_history: false,
                },
            ),
            r.authentication is None,
            r.default_input_modes is None,
            r.default_output_modes is None,
            r.transport == Some(Transport::Pty),
            r.skill_list() == codex_skills(),
    {
        let id = concat2("codex@localhost/", instance_id);
        let url = concat2("acp://", id.as_str());
        let mut skills: Vec<Skill> = Vec::new();
        skills.push(Skill::new("code-generation", "Code Generation").with_tags(one("programming")));
        skills.push(Skill::new("code-review", "Code Review").with_tags(one("programming")));
        skills.push(
            Skill::new("debugging", "Debugging").with_tags(one("programming")).with_examples(
                one("Find the bug in this code"),
            ),
        );
        proof {
            assert(skills_view(skills@) =~= codex_skills());
        }
        let name = concat3("Codex (", instance_id, ")");
        let r = AgentCard::new(name.as_str(), url.as_str()).with_id(id.as_str()).with_description(
            "OpenAI Codex agent",
        ).with_provider(Provider::new("OpenAI").with_url("https://openai.com")).with_capabilities(
            AgentCapabilities::new().with_streaming(true),
        ).with_transport(Transport::Pty).with_skills(skills);
        proof {
            assert(r.skill_list() =~= codex_skills());
        }
        r
    }
}

} // verus!
