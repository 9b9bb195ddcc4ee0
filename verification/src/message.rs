//! Messages between agents: addresses, routing and metadata.

use vstd::prelude::*;
use crate::clock::{fresh_id, now_millis};
use crate::json::{clone_value, empty_object, insert_member, json_of, text_value, Json};
use crate::text::{
    clone_opt_string, clone_strings, concat3, find_from, opt_view, owned, split_first,
    split_first_of, views,
};

verus! {

/// The version of the protocol that envelopes announce.
pub const ACP_VERSION: &'static str = "ACP/3.0";

/// The kind of a message.
#[derive(Debug, Clone, Copy, PartialEq, Eq, Structural)]
pub enum MessageType {
    Prompt,
    Response,
    Stream,
    Error,
    Discover,
    Advertise,
    Heartbeat,
    Cancel,
    Question,
    Answer,
    PipelineStart,
    PipelineStage,
    PipelineEnd,
}

/// How urgent a message is.
#[derive(Debug, Clone, Copy, PartialEq, Eq, Structural)]
pub enum Priority {
    Low,
    Normal,
    High,
    Urgent,
}

impl Default for Priority {
    fn default() -> (r: Self)
        ensures
            r == Priority::Normal,
    {
        Priority::Normal
    }
}

/// What travels with a message besides its payload.
#[derive(Debug)]
pub struct MessageMetadata {
    pub priority: Option<Priority>,
    pub ttl: Option<u64>,
    pub trace_id: Option<String>,
    pub correlation_id: Option<String>,
}

impl Default for MessageMetadata {
    fn default() -> (r: Self)
        ensures
            r.priority is None,
            r.ttl is None,
            r.trace_id is None,
            r.correlation_id is None,
    {
        MessageMetadata { priority: None, ttl: None, trace_id: None, correlation_id: None }
    }
}

impl Clone for MessageMetadata {
    fn clone(&self) -> (r: Self)
        ensures
            r.priority == self.priority,
            r.ttl == self.ttl,
            opt_view(r.trace_id) == opt_view(self.trace_id),
            opt_view(r.correlation_id) == opt_view(self.correlation_id),
    {
        MessageMetadata {
            priority: self.priority,
            ttl: self.ttl,
            trace_id: clone_opt_string(&self.trace_id),
            correlation_id: clone_opt_string(&self.correlation_id),
        }
    }
}

/// The content of a message: a text and, optionally, structured data.
#[derive(Debug)]
pub struct MessagePayload {
    pub content: String,
    pub data: Option<serde_json::Value>,
}

impl MessagePayload {
    /// A payload without data.
    pub fn new(content: &str) -> (r: Self)
        ensures
            r.content@ == content@,
            r.data is None,
    {
        MessagePayload { content: owned(content), data: None }
    }

    /// The same payload with the given data.
    pub fn with_data(self, data: serde_json::Value) -> (r: Self)
        ensures
            r.content == self.content,
            r.data == Some(data),
    {
        MessagePayload { content: self.content, data: Some(data) }
    }
}

impl Clone for MessagePayload {
    fn clone(&self) -> (r: Self)
        ensures
            r.content@ == self.content@,
            r.data is Some == self.data is Some,
            r.data matches Some(d) ==> json_of(d) == json_of(self.data.unwrap()),
    {
        MessagePayload {
            content: self.content.clone(),
            data: match &self.data {
                Some(d) => Some(clone_value(d)),
                None => None,
            },
        }
    }
}

/// The address of an agent: its id and, optionally, one of its instances.
#[derive(Debug, PartialEq, Eq)]
pub struct AgentAddress {
    pub id: String,
    pub instance: Option<String>,
}

/// The mathematical content of an [`AgentAddress`].
pub struct AgentAddressView {
    pub id: Seq<char>,
    pub instance: Option<Seq<char>>,
}

impl View for AgentAddress {
    type V = AgentAddressView;

    open spec fn view(&self) -> AgentAddressView {
        AgentAddressView { id: self.id@, instance: opt_view(self.instance) }
    }
}

impl Clone for AgentAddress {
    fn clone(&self) -> (r: Self)
        ensures
            r@ == self@,
    {
        AgentAddress { id: self.id.clone(), instance: clone_opt_string(&self.instance) }
    }
}

/// The address that a text of the form `id/instance` or `id` stands for: the
/// text is cut at its first `/`.
pub open spec fn parsed_address(s: Seq<char>) -> AgentAddressView {
    let parts = split_first_of(s, "/"@);
    if parts.len() == 2 {
        AgentAddressView { id: parts[0], instance: Some(parts[1]) }
    } else {
        AgentAddressView { id: s, instance: None }
    }
}

/// The text form of an address.
pub open spec fn address_text(a: AgentAddressView) -> Seq<char> {
    match a.instance {
        Some(i) => a.id + "/"@ + i,
        None => a.id,
    }
}

impl AgentAddress {
    /// An address without an instance.
    pub fn new(id: &str) -> (r: Self)
        ensures
            r@ == (AgentAddressView { id: id@, instance: None }),
    {
        AgentAddress { id: owned(id), instance: None }
    }

    /// The same agent, at the given instance.
    pub fn with_instance(self, instance: &str) -> (r: Self)
        ensures
            r@ == (AgentAddressView { id: self@.id, instance: Some(instance@) }),
    {
        AgentAddress { id: self.id, instance: Some(owned(instance)) }
    }

    /// Reads an address from its text form. Every text is an address.
    pub fn parse(s: &str) -> (r: Option<Self>)
        ensures
            r matches Some(a) && a@ == parsed_address(s@),
    {
        proof {
            reveal_strlit("/");
        }
        let parts = split_first(s, "/");
        if parts.len() == 2 {
            Some(AgentAddress { id: parts[0].clone(), instance: Some(parts[1].clone()) })
        } else {
            Some(AgentAddress { id: owned(s), instance: None })
        }
    }

    /// The text form of the address.
    pub fn to_address_string(&self) -> (r: String)
        ensures
            r@ == address_text(self@),
    {
        match &self.instance {
            Some(inst) => concat3(self.id.as_str(), "/", inst.as_str()),
            None => self.id.clone(),
        }
    }
}

/// One stage of a pipeline: its name, the agent that runs it and the
/// template of its prompt.
#[derive(Debug)]
pub struct PipelineStage {
    pub name: String,
    pub agent: AgentAddress,
    pub prompt_template: Option<String>,
}

/// The mathematical content of a [`PipelineStage`].
pub struct PipelineStageView {
    pub name: Seq<char>,
    pub agent: AgentAddressView,
    pub prompt_template: Option<Seq<char>>,
}

impl View for PipelineStage {
    type V = PipelineStageView;

    open spec fn view(&self) -> PipelineStageView {
        PipelineStageView {
            name: self.name@,
            agent: self.agent@,
            prompt_template: opt_view(self.prompt_template),
        }
    }
}

impl Clone for PipelineStage {
    fn clone(&self) -> (r: Self)
        ensures
            r@ == self@,
    {
        PipelineStage {
            name: self.name.clone(),
            agent: self.agent.clone(),
            prompt_template: clone_opt_string(&self.prompt_template),
        }
    }
}

/// The contents of a list of stages.
pub open spec fn stages_view(s: Seq<PipelineStage>) -> Seq<PipelineStageView> {
    Seq::new(s.len(), |i: int| s[i]@)
}

/// A copy of a list of stages.
pub fn clone_stages(v: &Vec<PipelineStage>) -> (r: Vec<PipelineStage>)
    ensures
        stages_view(r@) == stages_view(v@),
{
    let mut out: Vec<PipelineStage> = Vec::new();
    let mut i: usize = 0;
    while i < v.len()
        invariant
            0 <= i <= v.len(),
            out@.len() == i,
            forall|k: int| 0 <= k < i ==> out@[k]@ == v@[k]@,
        decreases v.len() - i,
    {
        out.push(v[i].clone());
        i = i + 1;
    }
    proof {
        assert(stages_view(out@) =~= stages_view(v@));
    }
    out
}

impl PipelineStage {
    /// A stage without a prompt template.
    pub fn new(name: &str, agent: AgentAddress) -> (r: Self)
        ensures
            r@ == (PipelineStageView { name: name@, agent: agent@, prompt_template: None }),
    {
        PipelineStage { name: owned(name), agent, prompt_template: None }
    }

    /// The same stage with the given prompt template.
    pub fn with_prompt_template(self, template: &str) -> (r: Self)
        ensures
            r@ == (PipelineStageView { prompt_template: Some(template@), ..self@ }),
    {
        PipelineStage { name: self.name, agent: self.agent, prompt_template: Some(owned(template)) }
    }
}


/// The view of an optional list of texts.
pub open spec fn opt_views(o: Option<Vec<String>>) -> Option<Seq<Seq<char>>> {
    match o {
        Some(v) => Some(views(v@)),
        None => None,
    }
}

/// A copy of an optional list of texts.
pub fn clone_opt_strings(o: &Option<Vec<String>>) -> (r: Option<Vec<String>>)
    ensures
        opt_views(r) == opt_views(*o),
{
    match o {
        Some(v) => Some(clone_strings(v)),
        None => None,
    }
}

/// What an agent has to offer to receive a broadcast.
#[derive(Debug)]
pub struct CapabilityFilter {
    /// Skills that are all required.
    pub capabilities: Option<Vec<String>>,
    /// Tags of which one is required.
    pub tags: Option<Vec<String>>,
    /// A text that the agent's name or id has to hold.
    pub agent_type: Option<String>,
}

impl Default for CapabilityFilter {
    fn default() -> (r: Self)
        ensures
            r.capabilities is None,
            r.tags is None,
            r.agent_type is None,
    {
        CapabilityFilter { capabilities: None, tags: None, agent_type: None }
    }
}

impl Clone for CapabilityFilter {
    fn clone(&self) -> (r: Self)
        ensures
            opt_views(r.capabilities) == opt_views(self.capabilities),
            opt_views(r.tags) == opt_views(self.tags),
            opt_view(r.agent_type) == opt_view(self.agent_type),
    {
        CapabilityFilter {
            capabilities: clone_opt_strings(&self.capabilities),
            tags: clone_opt_strings(&self.tags),
            agent_type: clone_opt_string(&self.agent_type),
        }
    }
}

impl CapabilityFilter {
    /// A filter that every agent passes.
    pub fn new() -> (r: Self)
        ensures
            r.capabilities is None,
            r.tags is None,
            r.agent_type is None,
    {
        CapabilityFilter { capabilities: None, tags: None, agent_type: None }
    }

    /// The same filter, requiring all of the given skills.
    pub fn with_capabilities(self, caps: Vec<String>) -> (r: Self)
        ensures
            r == (CapabilityFilter { capabilities: Some(caps), ..self }),
    {
        CapabilityFilter { capabilities: Some(caps), tags: self.tags, agent_type: self.agent_type }
    }

    /// The same filter, requiring one of the given tags.
    pub fn with_tags(self, tags: Vec<String>) -> (r: Self)
        ensures
            r == (CapabilityFilter { tags: Some(tags), ..self }),
    {
        CapabilityFilter {
            capabilities: self.capabilities,
            tags: Some(tags),
            agent_type: self.agent_type,
        }
    }

    /// The same filter, requiring the given agent type.
    pub fn with_agent_type(self, agent_type: &str) -> (r: Self)
        ensures
            r.capabilities == self.capabilities,
            r.tags == self.tags,
            opt_view(r.agent_type) == Some(agent_type@),
    {
        CapabilityFilter {
            capabilities: self.capabilities,
            tags: self.tags,
            agent_type: Some(owned(agent_type)),
        }
    }
}

/// Where a message goes.
#[derive(Debug)]
pub enum AddressType {
    Single { address: AgentAddress },
    Multiple { addresses: Vec<AgentAddress> },
    Broadcast { filter: Option<CapabilityFilter> },
    Pipeline { stages: Vec<PipelineStage> },
}

/// The contents of a list of addresses.
pub open spec fn addresses_view(a: Seq<AgentAddress>) -> Seq<AgentAddressView> {
    Seq::new(a.len(), |i: int| a[i]@)
}

/// The addresses without instance that a list of ids stands for.
pub open spec fn plain_addresses(ids: Seq<Seq<char>>) -> Seq<AgentAddressView> {
    Seq::new(ids.len(), |i: int| AgentAddressView { id: ids[i], instance: None })
}

/// The contents of a list of address references.
pub open spec fn address_refs_view(a: Seq<&AgentAddress>) -> Seq<AgentAddressView> {
    Seq::new(a.len(), |i: int| a[i]@)
}

impl AddressType {
    /// The recipients that the address names; none for a broadcast or a
    /// pipeline.
    pub open spec fn named(&self) -> Seq<AgentAddressView> {
        match *self {
            AddressType::Single { address } => seq![address@],
            AddressType::Multiple { addresses } => addresses_view(addresses@),
            AddressType::Broadcast { .. } => Seq::empty(),
            AddressType::Pipeline { .. } => Seq::empty(),
        }
    }

    /// The address of one agent.
    pub fn single(addr: &str) -> (r: Self)
        ensures
            r matches AddressType::Single { address } && address@ == (AgentAddressView {
                id: addr@,
                instance: None,
            }),
    {
        AddressType::Single { address: AgentAddress::new(addr) }
    }

    /// The addresses of several agents.
    pub fn multiple(addrs: Vec<String>) -> (r: Self)
        ensures
            r matches AddressType::Multiple { addresses } && addresses_view(addresses@)
                == plain_addresses(views(addrs@)),
    {
        let mut addresses: Vec<AgentAddress> = Vec::new();
        let mut i: usize = 0;
        while i < addrs.len()
            invariant
                0 <= i <= addrs.len(),
                addresses@.len() == i,
                forall|k: int|
                    0 <= k < i ==> (#[trigger] addresses@[k])@ == (AgentAddressView {
                        id: addrs@[k]@,
                        instance: None,
                    }),
            decreases addrs.len() - i,
        {
            addresses.push(AgentAddress::new(addrs[i].as_str()));
            i = i + 1;
        }
        proof {
            assert(addresses_view(addresses@) =~= plain_addresses(views(addrs@)));
        }
        AddressType::Multiple { addresses }
    }

    /// A broadcast to every agent.
    pub fn broadcast() -> (r: Self)
        ensures
            r matches AddressType::Broadcast { filter } && filter is None,
    {
        AddressType::Broadcast { filter: None }
    }

    /// A broadcast to the agents that pass the filter.
    pub fn broadcast_with_filter(filter: CapabilityFilter) -> (r: Self)
        ensures
            r == (AddressType::Broadcast { filter: Some(filter) }),
    {
        AddressType::Broadcast { filter: Some(filter) }
    }

    /// The route through the stages of a pipeline.
    pub fn pipeline(stages: Vec<PipelineStage>) -> (r: Self)
        ensures
            r == (AddressType::Pipeline { stages }),
    {
        AddressType::Pipeline { stages }
    }

    /// The recipients that the address names.
    pub fn recipients(&self) -> (r: Vec<&AgentAddress>)
        ensures
            address_refs_view(r@) == self.named(),
    {
        let mut out: Vec<&AgentAddress> = Vec::new();
        match self {
            AddressType::Single { address } => {
                out.push(address);
                proof {
                    assert(address_refs_view(out@) =~= self.named());
                }
            },
            AddressType::Multiple { addresses } => {
                let mut i: usize = 0;
                while i < addresses.len()
                    invariant
                        0 <= i <= addresses.len(),
                        out@.len() == i,
                        forall|k: int| 0 <= k < i ==> (#[trigger] out@[k])@ == addresses@[k]@,
                    decreases addresses.len() - i,
                {
                    out.push(&addresses[i]);
                    i = i + 1;
                }
                proof {
                    assert(address_refs_view(out@) =~= self.named());
                }
            },
            _ => {
                proof {
                    assert(address_refs_view(out@) =~= self.named());
                }
            },
        }
        out
    }
}

impl Clone for AddressType {
    fn clone(&self) -> (r: Self)
        ensures
            r.named() == self.named(),
            r is Single == self is Single,
            r is Multiple == self is Multiple,
            r is Broadcast == self is Broadcast,
            r is Pipeline == self is Pipeline,
            r matches AddressType::Pipeline { stages } ==> stages_view(stages@) == stages_view(
                self->Pipeline_stages@,
            ),
            r matches AddressType::Broadcast { filter } ==> (filter is Some
                == self->Broadcast_filter is Some) && (filter matches Some(f) ==> opt_views(
                f.capabilities,
            ) == opt_views(self->Broadcast_filter.unwrap().capabilities) && opt_views(f.tags)
                == opt_views(self->Broadcast_filter.unwrap().tags) && opt_view(f.agent_type)
                == opt_view(self->Broadcast_filter.unwrap().agent_type)),
    {
        match self {
            AddressType::Single { address } => AddressType::Single { address: address.clone() },
            AddressType::Multiple { addresses } => {
                let mut out: Vec<AgentAddress> = Vec::new();
                let mut i: usize = 0;
                while i < addresses.len()
                    invariant
                        0 <= i <= addresses.len(),
                        out@.len() == i,
                        forall|k: int| 0 <= k < i ==> (#[trigger] out@[k])@ == addresses@[k]@,
                    decreases addresses.len() - i,
                {
                    out.push(addresses[i].clone());
                    i = i + 1;
                }
                proof {
                    assert(addresses_view(out@) =~= addresses_view(addresses@));
                }
                AddressType::Multiple { addresses: out }
            },
            AddressType::Broadcast { filter } => AddressType::Broadcast {
                filter: match filter {
                    Some(f) => Some(f.clone()),
                    None => None,
                },
            },
            AddressType::Pipeline { stages } => AddressType::Pipeline { stages: clone_stages(stages) },
        }
    }
}

/// Where a message of the older format goes.
#[derive(Debug)]
pub enum Address {
    Single(String),
    Multiple(Vec<String>),
}

/// The contents of a list of text references.
pub open spec fn string_refs_view(a: Seq<&String>) -> Seq<Seq<char>> {
    Seq::new(a.len(), |i: int| a[i]@)
}

impl Address {
    /// The ids that the address names.
    pub open spec fn named(&self) -> Seq<Seq<char>> {
        match *self {
            Address::Single(a) => seq![a@],
            Address::Multiple(v) => views(v@),
        }
    }

    /// The address of one agent.
    pub fn single(addr: &str) -> (r: Self)
        ensures
            r matches Address::Single(a) && a@ == addr@,
    {
        Address::Single(owned(addr))
    }

    /// The addresses of several agents.
    pub fn multiple(addrs: Vec<String>) -> (r: Self)
        ensures
            r == Address::Multiple(addrs),
    {
        Address::Multiple(addrs)
    }

    /// The ids that the address names.
    pub fn recipients(&self) -> (r: Vec<&String>)
        ensures
            string_refs_view(r@) == self.named(),
    {
        let mut out: Vec<&String> = Vec::new();
        match self {
            Address::Single(a) => {
                out.push(a);
                proof {
                    assert(string_refs_view(out@) =~= self.named());
                }
            },
            Address::Multiple(v) => {
                let mut i: usize = 0;
                while i < v.len()
                    invariant
                        0 <= i <= v.len(),
                        out@.len() == i,
                        forall|k: int| 0 <= k < i ==> (#[trigger] out@[k])@ == v@[k]@,
                    decreases v.len() - i,
                {
                    out.push(&v[i]);
                    i = i + 1;
                }
                proof {
                    assert(string_refs_view(out@) =~= self.named());
                }
            },
        }
        out
    }

    /// The same address in the current format: each id becomes an address
    /// without instance.
    pub fn to_v3(&self) -> (r: AddressType)
        ensures
            r.named() == plain_addresses(self.named()),
            self is Single ==> r is Single,
            self is Multiple ==> r is Multiple,
    {
        match self {
            Address::Single(a) => {
                let r = AddressType::single(a.as_str());
                proof {
                    assert(r.named() =~= plain_addresses(self.named()));
                }
                r
            },
            Address::Multiple(v) => AddressType::multiple(clone_strings(v)),
        }
    }
}

impl Clone for Address {
    fn clone(&self) -> (r: Self)
        ensures
            r.named() == self.named(),
            r is Single == self is Single,
    {
        match self {
            Address::Single(a) => Address::Single(a.clone()),
            Address::Multiple(v) => Address::Multiple(clone_strings(v)),
        }
    }
}

/// What travels with an envelope.
#[derive(Debug)]
pub struct EnvelopeMetadata {
    pub priority: Option<Priority>,
    pub ttl: Option<u64>,
    pub trace_id: Option<String>,
    pub correlation_id: Option<String>,
}

impl Default for EnvelopeMetadata {
    fn default() -> (r: Self)
        ensures
            r.priority is None,
            r.ttl is None,
            r.trace_id is None,
            r.correlation_id is None,
    {
        EnvelopeMetadata { priority: None, ttl: None, trace_id: None, correlation_id: None }
    }
}

impl EnvelopeMetadata {
    /// Metadata that says nothing.
    pub fn new() -> (r: Self)
        ensures
            r.priority is None,
            r.ttl is None,
            r.trace_id is None,
            r.correlation_id is None,
    {
        EnvelopeMetadata { priority: None, ttl: None, trace_id: None, correlation_id: None }
    }

    /// The same metadata with the given priority.
    pub fn with_priority(self, priority: Priority) -> (r: Self)
        ensures
            r == (EnvelopeMetadata { priority: Some(priority), ..self }),
    {
        EnvelopeMetadata {
            priority: Some(priority),
            ttl: self.ttl,
            trace_id: self.trace_id,
            correlation_id: self.correlation_id,
        }
    }

    /// The same metadata with the given time to live, in seconds.
    pub fn with_ttl(self, ttl: u64) -> (r: Self)
        ensures
            r == (EnvelopeMetadata { ttl: Some(ttl), ..self }),
    {
        EnvelopeMetadata {
            priority: self.priority,
            ttl: Some(ttl),
            trace_id: self.trace_id,
            correlation_id: self.correlation_id,
        }
    }

    /// The same metadata with the given trace id.
    pub fn with_trace_id(self, trace_id: &str) -> (r: Self)
        ensures
            r.priority == self.priority,
            r.ttl == self.ttl,
            opt_view(r.trace_id) == Some(trace_id@),
            r.correlation_id == self.correlation_id,
    {
        EnvelopeMetadata {
            priority: self.priority,
            ttl: self.ttl,
            trace_id: Some(owned(trace_id)),
            correlation_id: self.correlation_id,
        }
    }

    /// The same metadata with the given correlation id.
    pub fn with_correlation_id(self, correlation_id: &str) -> (r: Self)
        ensures
            r.priority == self.priority,
            r.ttl == self.ttl,
            r.trace_id == self.trace_id,
            opt_view(r.correlation_id) == Some(correlation_id@),
    {
        EnvelopeMetadata {
            priority: self.priority,
            ttl: self.ttl,
            trace_id: self.trace_id,
            correlation_id: Some(owned(correlation_id)),
        }
    }
}

fn correlated(correlation_id: &str) -> (r: Option<MessageMetadata>)
    ensures
        r matches Some(m) && m.priority is None && m.ttl is None && m.trace_id is None && opt_view(
            m.correlation_id,
        ) == Some(correlation_id@),
{
    Some(
        MessageMetadata {
            priority: None,
            ttl: None,
            trace_id: None,
            correlation_id: Some(owned(correlation_id)),
        },
    )
}

fn or_default(metadata: Option<MessageMetadata>) -> (r: MessageMetadata)
    ensures
        match metadata {
            Some(m) => r == m,
            None => r.priority is None && r.ttl is None && r.trace_id is None
                && r.correlation_id is None,
        },
{
    match metadata {
        Some(m) => m,
        None => MessageMetadata::default(),
    }
}

/// A message in the current format. The id is random and the time is read
/// from the clock, in milliseconds since the Unix epoch.
#[derive(Debug)]
pub struct ACPMessageV3 {
    pub id: String,
    pub timestamp: i64,
    pub from: AgentAddress,
    pub to: AddressType,
    pub message_type: MessageType,
    pub payload: MessagePayload,
    pub metadata: Option<MessageMetadata>,
}

impl ACPMessageV3 {
    /// True for a message of the given kind from `from` with the given
    /// content.
    pub open spec fn is_message(&self, kind: MessageType, from: Seq<char>, content: Seq<char>) -> bool {
        &&& self.message_type == kind
        &&& self.from@ == (AgentAddressView { id: from, instance: None })
        &&& self.payload.content@ == content
    }

    /// True for a message to the one agent `to`.
    pub open spec fn is_to(&self, to: Seq<char>) -> bool {
        self.to matches AddressType::Single { address } && address@ == (AgentAddressView {
            id: to,
            instance: None,
        })
    }

    /// True for a message that carries nothing but the given correlation
    /// id as metadata.
    pub open spec fn answers(&self, correlation_id: Seq<char>) -> bool {
        self.metadata matches Some(m) && m.priority is None && m.ttl is None && m.trace_id is None
            && opt_view(m.correlation_id) == Some(correlation_id)
    }

    fn build(from: &str, to: AddressType, kind: MessageType, payload: MessagePayload, metadata: Option<
        MessageMetadata,
    >) -> (r: Self)
        ensures
            r.from@ == (AgentAddressView { id: from@, instance: None }),
            r.to == to,
            r.message_type == kind,
            r.payload == payload,
            r.metadata == metadata,
    {
        ACPMessageV3 {
            id: fresh_id(),
            timestamp: now_millis(),
            from: AgentAddress::new(from),
            to,
            message_type: kind,
            payload,
            metadata,
        }
    }

    /// A prompt for one agent.
    pub fn prompt(from: &str, to: &str, content: &str) -> (r: Self)
        ensures
            r.is_message(MessageType::Prompt, from@, content@),
            r.is_to(to@),
            r.payload.data is None,
            r.metadata is None,
    {
        ACPMessageV3::build(
            from,
            AddressType::single(to),
            MessageType::Prompt,
            MessagePayload::new(content),
            None,
        )
    }

    /// A response to the message `correlation_id`.
    pub fn response(from: &str, to: &str, content: &str, correlation_id: &str) -> (r: Self)
        ensures
            r.is_message(MessageType::Response, from@, content@),
            r.is_to(to@),
            r.payload.data is None,
            r.answers(correlation_id@),
    {
        ACPMessageV3::build(
            from,
            AddressType::single(to),
            MessageType::Response,
            MessagePayload::new(content),
            correlated(correlation_id),
        )
    }

    /// A chunk of streamed output for the message `correlation_id`.
    pub fn stream(from: &str, to: &str, content: &str, correlation_id: &str) -> (r: Self)
        ensures
            r.is_message(MessageType::Stream, from@, content@),
            r.is_to(to@),
            r.payload.data is None,
            r.answers(correlation_id@),
    {
        ACPMessageV3::build(
            from,
            AddressType::single(to),
            MessageType::Stream,
            MessagePayload::new(content),
            correlated(correlation_id),
        )
    }

    /// A prompt for every agent that passes the filter.
    pub fn broadcast(from: &str, content: &str, filter: Option<CapabilityFilter>) -> (r: Self)
        ensures
            r.is_message(MessageType::Prompt, from@, content@),
            r.to == (AddressType::Broadcast { filter }),
            r.payload.data is None,
            r.metadata is None,
    {
        ACPMessageV3::build(
            from,
            AddressType::Broadcast { filter },
            MessageType::Prompt,
            MessagePayload::new(content),
            None,
        )
    }

    /// A request to every agent to announce itself.
    pub fn discover(from: &str) -> (r: Self)
        ensures
            r.is_message(MessageType::Discover, from@, Seq::empty()),
            r.to matches AddressType::Broadcast { filter } && filter is None,
            r.payload.data is None,
            r.metadata is None,
    {
        proof {
            reveal_strlit("");
            assert(""@ =~= Seq::<char>::empty());
        }
        ACPMessageV3::build(
            from,
            AddressType::broadcast(),
            MessageType::Discover,
            MessagePayload::new(""),
            None,
        )
    }

    /// An announcement of capabilities to every agent.
    pub fn advertise(from: &str, capabilities_json: serde_json::Value) -> (r: Self)
        ensures
            r.is_message(MessageType::Advertise, from@, Seq::empty()),
            r.to matches AddressType::Broadcast { filter } && filter is None,
            r.payload.data == Some(capabilities_json),
            r.metadata is None,
    {
        proof {
            reveal_strlit("");
            assert(""@ =~= Seq::<char>::empty());
        }
        ACPMessageV3::build(
            from,
            AddressType::broadcast(),
            MessageType::Advertise,
            MessagePayload::new("").with_data(capabilities_json),
            None,
        )
    }

    /// An error report for one agent.
    pub fn error(from: &str, to: &str, error_msg: &str) -> (r: Self)
        ensures
            r.is_message(MessageType::Error, from@, error_msg@),
            r.is_to(to@),
            r.payload.data is None,
            r.metadata is None,
    {
        ACPMessageV3::build(
            from,
            AddressType::single(to),
            MessageType::Error,
            MessagePayload::new(error_msg),
            None,
        )
    }

    /// A request to cancel the task `task_id`.
    pub fn cancel(from: &str, to: &str, task_id: &str) -> (r: Self)
        ensures
            r.is_message(MessageType::Cancel, from@, Seq::empty()),
            r.is_to(to@),
            r.payload.data matches Some(d) && json_of(d) == Json::Object(
                Map::<Seq<char>, Json>::empty().insert("task_id"@, Json::Text(task_id@)),
            ),
            r.metadata is None,
    {
        proof {
            reveal_strlit("");
            assert(""@ =~= Seq::<char>::empty());
        }
        let mut data = empty_object();
        insert_member(&mut data, "task_id", text_value(owned(task_id)));
        ACPMessageV3::build(
            from,
            AddressType::single(to),
            MessageType::Cancel,
            MessagePayload::new("").with_data(data),
            None,
        )
    }

    /// A question for one agent.
    pub fn question(from: &str, to: &str, content: &str) -> (r: Self)
        ensures
            r.is_message(MessageType::Question, from@, content@),
            r.is_to(to@),
            r.payload.data is None,
            r.metadata is None,
    {
        ACPMessageV3::build(
            from,
            AddressType::single(to),
            MessageType::Question,
            MessagePayload::new(content),
            None,
        )
    }

    /// An answer to the question `correlation_id`.
    pub fn answer(from: &str, to: &str, content: &str, correlation_id: &str) -> (r: Self)
        ensures
            r.is_message(MessageType::Answer, from@, content@),
            r.is_to(to@),
            r.payload.data is None,
            r.answers(correlation_id@),
    {
        ACPMessageV3::build(
            from,
            AddressType::single(to),
            MessageType::Answer,
            MessagePayload::new(content),
            correlated(correlation_id),
        )
    }

    /// The announcement that a pipeline starts, routed through its stages.
    pub fn pipeline_start(from: &str, stages: Vec<PipelineStage>) -> (r: Self)
        ensures
            r.is_message(MessageType::PipelineStart, from@, Seq::empty()),
            r.to == (AddressType::Pipeline { stages }),
            r.payload.data is None,
            r.metadata is None,
    {
        proof {
            reveal_strlit("");
            assert(""@ =~= Seq::<char>::empty());
        }
        ACPMessageV3::build(
            from,
            AddressType::pipeline(stages),
            MessageType::PipelineStart,
            MessagePayload::new(""),
            None,
        )
    }

    /// The announcement that a stage of a pipeline completed with `result`.
    pub fn pipeline_stage(from: &str, stage_name: &str, result: serde_json::Value) -> (r: Self)
        ensures
            r.is_message(MessageType::PipelineStage, from@, Seq::empty()),
            r.to matches AddressType::Broadcast { filter } && filter is None,
            r.payload.data matches Some(d) && json_of(d) == Json::Object(
                Map::<Seq<char>, Json>::empty().insert("stage"@, Json::Text(stage_name@)).insert(
                    "result"@,
                    json_of(result),
                ),
            ),
            r.metadata is None,
    {
        proof {
            reveal_strlit("");
            assert(""@ =~= Seq::<char>::empty());
        }
        let mut data = empty_object();
        insert_member(&mut data, "stage", text_value(owned(stage_name)));
        insert_member(&mut data, "result", result);
        ACPMessageV3::build(
            from,
            AddressType::broadcast(),
            MessageType::PipelineStage,
            MessagePayload::new("").with_data(data),
            None,
        )
    }

    /// The same message with the given priority.
    pub fn with_priority(self, priority: Priority) -> (r: Self)
        ensures
            r.metadata matches Some(m) && m == (MessageMetadata {
                priority: Some(priority),
                ..or_default_spec(self.metadata)
            }),
            r == (ACPMessageV3 { metadata: r.metadata, ..self }),
    {
        let mut meta = or_default(self.metadata);
        meta.priority = Some(priority);
        ACPMessageV3 {
            id: self.id,
            timestamp: self.timestamp,
            from: self.from,
            to: self.to,
            message_type: self.message_type,
            payload: self.payload,
            metadata: Some(meta),
        }
    }

    /// The same message with the given time to live, in seconds.
    pub fn with_ttl(self, ttl: u64) -> (r: Self)
        ensures
            r.metadata matches Some(m) && m == (MessageMetadata {
                ttl: Some(ttl),
                ..or_default_spec(self.metadata)
            }),
            r == (ACPMessageV3 { metadata: r.metadata, ..self }),
    {
        let mut meta = or_default(self.metadata);
        meta.ttl = Some(ttl);
        ACPMessageV3 {
            id: self.id,
            timestamp: self.timestamp,
            from: self.from,
            to: self.to,
            message_type: self.message_type,
            payload: self.payload,
            metadata: Some(meta),
        }
    }

    /// The same message with the given trace id.
    pub fn with_trace_id(self, trace_id: &str) -> (r: Self)
        ensures
            r.metadata matches Some(m) && opt_view(m.trace_id) == Some(trace_id@) && m
                == (MessageMetadata { trace_id: m.trace_id, ..or_default_spec(self.metadata) }),
            r == (ACPMessageV3 { metadata: r.metadata, ..self }),
    {
        let mut meta = or_default(self.metadata);
        meta.trace_id = Some(owned(trace_id));
        ACPMessageV3 {
            id: self.id,
            timestamp: self.timestamp,
            from: self.from,
            to: self.to,
            message_type: self.message_type,
            payload: self.payload,
            metadata: Some(meta),
        }
    }

    /// The message in an envelope of the current protocol version.
    pub fn into_envelope(self) -> (r: ACPEnvelope)
        ensures
            r.protocol@ == ACP_VERSION@,
            r.message == self,
            r.metadata is None,
    {
        ACPEnvelope::new(self)
    }
}

/// The metadata that a builder starts from: the message's own, or, where it
/// has none, metadata whose fields are all empty.
pub open spec fn or_default_spec(metadata: Option<MessageMetadata>) -> MessageMetadata {
    match metadata {
        Some(m) => m,
        None => MessageMetadata { priority: None, ttl: None, trace_id: None, correlation_id: None },
    }
}

/// A message with the version of the protocol it is written in.
#[derive(Debug)]
pub struct ACPEnvelope {
    pub protocol: String,
    pub message: ACPMessageV3,
    pub metadata: Option<EnvelopeMetadata>,
}

impl ACPEnvelope {
    /// An envelope of the current protocol version around `message`.
    pub fn new(message: ACPMessageV3) -> (r: Self)
        ensures
            r.protocol@ == ACP_VERSION@,
            r.message == message,
            r.metadata is None,
    {
        ACPEnvelope { protocol: owned(ACP_VERSION), message, metadata: None }
    }

    /// The same envelope with the given metadata.
    pub fn with_metadata(self, metadata: EnvelopeMetadata) -> (r: Self)
        ensures
            r == (ACPEnvelope { metadata: Some(metadata), ..self }),
    {
        ACPEnvelope { protocol: self.protocol, message: self.message, metadata: Some(metadata) }
    }
}

/// A message in the older format, addressed by plain ids.
#[derive(Debug)]
pub struct ACPMessage {
    pub id: String,
    pub timestamp: i64,
    pub from: String,
    pub to: Address,
    pub message_type: MessageType,
    pub payload: MessagePayload,
    pub metadata: Option<MessageMetadata>,
}

impl ACPMessage {
    /// True for a message of the given kind from `from` with the given
    /// content.
    pub open spec fn is_message(&self, kind: MessageType, from: Seq<char>, content: Seq<char>) -> bool {
        &&& self.message_type == kind
        &&& self.from@ == from
        &&& self.payload.content@ == content
    }

    fn build(from: &str, to: Address, kind: MessageType, payload: MessagePayload, metadata: Option<
        MessageMetadata,
    >) -> (r: Self)
        ensures
            r.from@ == from@,
            r.to == to,
            r.message_type == kind,
            r.payload == payload,
            r.metadata == metadata,
    {
        ACPMessage {
            id: fresh_id(),
            timestamp: now_millis(),
            from: owned(from),
            to,
            message_type: kind,
            payload,
            metadata,
        }
    }

    /// A prompt for one agent.
    pub fn prompt(from: &str, to: &str, content: &str) -> (r: Self)
        ensures
            r.is_message(MessageType::Prompt, from@, content@),
            r.to.named() == seq![to@],
            r.payload.data is None,
            r.metadata is None,
    {
        ACPMessage::build(
            from,
            Address::single(to),
            MessageType::Prompt,
            MessagePayload::new(content),
            None,
        )
    }

    /// A response to the message `correlation_id`.
    pub fn response(from: &str, to: &str, content: &str, correlation_id: &str) -> (r: Self)
        ensures
            r.is_message(MessageType::Response, from@, content@),
            r.to.named() == seq![to@],
            r.payload.data is None,
            r.metadata matches Some(m) && opt_view(m.correlation_id) == Some(correlation_id@)
                && m.priority is None && m.ttl is None && m.trace_id is None,
    {
        ACPMessage::build(
            from,
            Address::single(to),
            MessageType::Response,
            MessagePayload::new(content),
            correlated(correlation_id),
        )
    }

    fn to_all() -> (r: Address)
        ensures
            r.named() == Seq::<Seq<char>>::empty(),
            r is Multiple,
    {
        let v: Vec<String> = Vec::new();
        let r = Address::Multiple(v);
        proof {
            assert(r.named() =~= Seq::<Seq<char>>::empty());
        }
        r
    }

    /// A prompt for every agent.
    pub fn broadcast(from: &str, content: &str) -> (r: Self)
        ensures
            r.is_message(MessageType::Prompt, from@, content@),
            r.to.named() == Seq::<Seq<char>>::empty(),
            r.payload.data is None,
            r.metadata is None,
    {
        ACPMessage::build(
            from,
            ACPMessage::to_all(),
            MessageType::Prompt,
            MessagePayload::new(content),
            None,
        )
    }

    /// A request to every agent to announce itself.
    pub fn discover(from: &str) -> (r: Self)
        ensures
            r.is_message(MessageType::Discover, from@, Seq::empty()),
            r.to.named() == Seq::<Seq<char>>::empty(),
            r.payload.data is None,
            r.metadata is None,
    {
        proof {
            reveal_strlit("");
            assert(""@ =~= Seq::<char>::empty());
        }
        ACPMessage::build(
            from,
            ACPMessage::to_all(),
            MessageType::Discover,
            MessagePayload::new(""),
            None,
        )
    }

    /// An announcement of capabilities to every agent.
    pub fn advertise(from: &str, capabilities_json: serde_json::Value) -> (r: Self)
        ensures
            r.is_message(MessageType::Advertise, from@, Seq::empty()),
            r.to.named() == Seq::<Seq<char>>::empty(),
            r.payload.data == Some(capabilities_json),
            r.metadata is None,
    {
        proof {
            reveal_strlit("");
            assert(""@ =~= Seq::<char>::empty());
        }
        ACPMessage::build(
            from,
            ACPMessage::to_all(),
            MessageType::Advertise,
            MessagePayload::new("").with_data(capabilities_json),
            None,
        )
    }

    /// An error report for one agent.
    pub fn error(from: &str, to: &str, error_msg: &str) -> (r: Self)
        ensures
            r.is_message(MessageType::Error, from@, error_msg@),
            r.to.named() == seq![to@],
            r.payload.data is None,
            r.metadata is None,
    {
        ACPMessage::build(
            from,
            Address::single(to),
            MessageType::Error,
            MessagePayload::new(error_msg),
            None,
        )
    }

    /// The same message with the given priority.
    pub fn with_priority(self, priority: Priority) -> (r: Self)
        ensures
            r.metadata matches Some(m) && m == (MessageMetadata {
                priority: Some(priority),
                ..or_default_spec(self.metadata)
            }),
            r == (ACPMessage { metadata: r.metadata, ..self }),
    {
        let mut meta = or_default(self.metadata);
        meta.priority = Some(priority);
        ACPMessage {
            id: self.id,
            timestamp: self.timestamp,
            from: self.from,
            to: self.to,
            message_type: self.message_type,
            payload: self.payload,
            metadata: Some(meta),
        }
    }

    /// The same message with the given time to live, in seconds.
    pub fn with_ttl(self, ttl: u64) -> (r: Self)
        ensures
            r.metadata matches Some(m) && m == (MessageMetadata {
                ttl: Some(ttl),
                ..or_default_spec(self.metadata)
            }),
            r == (ACPMessage { metadata: r.metadata, ..self }),
    {
        let mut meta = or_default(self.metadata);
        meta.ttl = Some(ttl);
        ACPMessage {
            id: self.id,
            timestamp: self.timestamp,
            from: self.from,
            to: self.to,
            message_type: self.message_type,
            payload: self.payload,
            metadata: Some(meta),
        }
    }

    /// The same message with the given trace id.
    pub fn with_trace_id(self, trace_id: &str) -> (r: Self)
        ensures
            r.metadata matches Some(m) && opt_view(m.trace_id) == Some(trace_id@) && m
                == (MessageMetadata { trace_id: m.trace_id, ..or_default_spec(self.metadata) }),
            r == (ACPMessage { metadata: r.metadata, ..self }),
    {
        let mut meta = or_default(self.metadata);
        meta.trace_id = Some(owned(trace_id));
        ACPMessage {
            id: self.id,
            timestamp: self.timestamp,
            from: self.from,
            to: self.to,
            message_type: self.message_type,
            payload: self.payload,
            metadata: Some(meta),
        }
    }

    /// The same message in the current format: the sender is read as an
    /// address, and each recipient becomes an address without instance.
    pub fn to_v3(&self) -> (r: ACPMessageV3)
        ensures
            r.id@ == self.id@,
            r.timestamp == self.timestamp,
            r.from@ == parsed_address(self.from@),
            r.to.named() == plain_addresses(self.to.named()),
            r.message_type == self.message_type,
            r.payload.content@ == self.payload.content@,
            r.payload.data is Some == self.payload.data is Some,
            r.payload.data matches Some(d) ==> json_of(d) == json_of(self.payload.data.unwrap()),
            r.metadata is Some == self.metadata is Some,
            r.metadata matches Some(m) ==> m.priority == self.metadata.unwrap().priority && m.ttl
                == self.metadata.unwrap().ttl && opt_view(m.trace_id) == opt_view(
                self.metadata.unwrap().trace_id,
            ) && opt_view(m.correlation_id) == opt_view(self.metadata.unwrap().correlation_id),
    {
        let from = match AgentAddress::parse(self.from.as_str()) {
            Some(a) => a,
            None => AgentAddress::new(self.from.as_str()),
        };
        ACPMessageV3 {
            id: self.id.clone(),
            timestamp: self.timestamp,
            from,
            to: self.to.to_v3(),
            message_type: self.message_type,
            payload: self.payload.clone(),
            metadata: match &self.metadata {
                Some(m) => Some(m.clone()),
                None => None,
            },
        }
    }

    /// The message, in the current format, in an envelope.
    pub fn into_envelope(self) -> (r: ACPEnvelope)
        ensures
            r.protocol@ == ACP_VERSION@,
            r.message.id@ == self.id@,
            r.message.from@ == parsed_address(self.from@),
            r.message.message_type == self.message_type,
            r.metadata is None,
    {
        ACPEnvelope::new(self.to_v3())
    }
}

/// The framing of messages on a terminal: the JSON text of a message between
/// `<ACP>` and `</ACP>`.
pub struct ACPFrame;

/// The mark that opens a frame.
pub const START_MARKER: &'static str = "<ACP>";

/// The mark that closes a frame.
pub const END_MARKER: &'static str = "</ACP>";

/// The payloads of the frames in `output`, in order: each lies between an
/// opening mark and the first closing mark behind it. An opening mark
/// without a closing mark ends the search.
pub open spec fn frames_of(output: Seq<char>) -> Seq<Seq<char>>
    decreases output.len(),
{
    let opened = split_first_of(output, START_MARKER@);
    if opened.len() != 2 {
        Seq::empty()
    } else {
        let closed = split_first_of(opened[1], END_MARKER@);
        if closed.len() != 2 || closed[1].len() >= output.len() {
            Seq::empty()
        } else {
            seq![closed[0]] + frames_of(closed[1])
        }
    }
}

impl ACPFrame {
    /// The frame around a JSON text.
    pub fn encode(json: &str) -> (r: String)
        ensures
            r@ == START_MARKER@ + json@ + END_MARKER@,
    {
        concat3(START_MARKER, json, END_MARKER)
    }

    /// The payloads of the frames in `output`, in order.
    pub fn parse(output: &str) -> (r: Vec<String>)
        ensures
            views(r@) == frames_of(output@),
    {
        proof {
            reveal_strlit("<ACP>");
            reveal_strlit("</ACP>");
        }
        let mut found: Vec<String> = Vec::new();
        let mut remaining = owned(output);
        proof {
            assert(views(found@) =~= Seq::<Seq<char>>::empty());
        }
        loop
            invariant
                frames_of(output@) == views(found@) + frames_of(remaining@),
                START_MARKER@.len() == 5,
                END_MARKER@.len() == 6,
            decreases remaining@.len(),
        {
            let opened = split_first(remaining.as_str(), START_MARKER);
            if opened.len() != 2 {
                proof {
                    assert(frames_of(remaining@) =~= Seq::<Seq<char>>::empty());
                    assert(views(found@) + Seq::<Seq<char>>::empty() =~= views(found@));
                }
                return found;
            }
            proof {
                assert(views(opened@)[1] == opened@[1]@);
            }
            let closed = split_first(opened[1].as_str(), END_MARKER);
            if closed.len() != 2 {
                proof {
                    assert(frames_of(remaining@) =~= Seq::<Seq<char>>::empty());
                    assert(views(found@) + Seq::<Seq<char>>::empty() =~= views(found@));
                }
                return found;
            }
            proof {
                assert(views(closed@)[0] == closed@[0]@);
                assert(views(closed@)[1] == closed@[1]@);
                let i = find_from(remaining@, START_MARKER@, 0);
                let j = find_from(opened@[1]@, END_MARKER@, 0);
                assert(views(opened@).len() == 2);
                assert(views(closed@).len() == 2);
                assert(i >= 0 && j >= 0);
                assert(opened@[1]@ == remaining@.subrange(i + 5, remaining@.len() as int));
                assert(closed@[1]@ == opened@[1]@.subrange(j + 6, opened@[1]@.len() as int));
                assert(closed@[1]@.len() < remaining@.len());
                let fv = views(found@);
                assert(fv.push(closed@[0]@) + frames_of(closed@[1]@) =~= fv + (seq![closed@[0]@]
                    + frames_of(closed@[1]@)));
            }
            let ghost fv = views(found@);
            found.push(closed[0].clone());
            proof {
                assert(views(found@) =~= fv.push(closed@[0]@));
            }
            remaining = closed[1].clone();
        }
    }
}

/// Why a frame's payload could not be read as a message.
#[derive(Debug)]
pub enum ACPParseError {
    JsonError(String),
}

} // verus!
