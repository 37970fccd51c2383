//! The device that Home Assistant discovers, and the MQTT identity that it
//! shares with its components.
use vstd::prelude::*;
use vstd::string::*;

use json::JsonValue;

use crate::json_doc::{
    json_decimal_text, json_from_str, json_from_u8, json_insert, json_is_object, json_members,
    json_new_object, json_object_text, json_string_text, json_stringify, json_text,
};
use crate::mqtt::message::{PublishError, PublishRequest, QoS};
use crate::mqtt::topic::{ha_topic, make_ha_topic, topic_level, topic_level_at};

verus! {

/// What an MQTT identity is: its unique id, its name and its platform; its
/// state topic follows from these.
pub struct MqttConfigView {
    pub unique_id: Seq<char>,
    pub name: Seq<char>,
    pub platform: Seq<char>,
}

impl MqttConfigView {
    /// `homeassistant/<platform>/<unique_id>/state`.
    pub open spec fn state_topic(self) -> Seq<char> {
        ha_topic(self.platform, self.unique_id, "state"@)
    }
}

/// The MQTT identity of an entity: unique id, name, platform and the topic on
/// which it publishes its state.
pub struct MqttConfig {
    unique_id: String,
    name: String,
    platform: String,
    state_topic: String,
}

impl View for MqttConfig {
    type V = MqttConfigView;

    closed spec fn view(&self) -> MqttConfigView {
        MqttConfigView { unique_id: self.unique_id@, name: self.name@, platform: self.platform@ }
    }
}

impl MqttConfig {
    #[verifier::type_invariant]
    spec fn state_topic_follows(self) -> bool {
        self.state_topic@ == ha_topic(self.platform@, self.unique_id@, "state"@)
    }

    /// An identity with the state topic `homeassistant/<platform>/<unique_id>/state`.
    pub fn new(unique_id: String, name: String, platform: String) -> (config: Self)
        ensures
            config@ == (MqttConfigView { unique_id: unique_id@, name: name@, platform: platform@ }),
    {
        let state_topic = make_ha_topic(platform.as_str(), unique_id.as_str(), "state");
        MqttConfig { unique_id, name, platform, state_topic }
    }

    pub fn unique_id(&self) -> (r: &String)
        ensures
            r@ == self@.unique_id,
    {
        &self.unique_id
    }

    pub fn name(&self) -> (r: &String)
        ensures
            r@ == self@.name,
    {
        &self.name
    }

    pub fn platform(&self) -> (r: &String)
        ensures
            r@ == self@.platform,
    {
        &self.platform
    }

    pub fn state_topic(&self) -> (r: &String)
        ensures
            r@ == self@.state_topic(),
    {
        proof {
            use_type_invariant(self);
        }
        &self.state_topic
    }
}

/// An entity of the device that Home Assistant discovers: it has a unique
/// id, a state topic, perhaps a command topic, a discovery payload, and it
/// turns the messages on its command topic into requests.  A request is
/// carried out in two steps: the component says what to publish for it, and,
/// once the publish went out or failed, it completes the request.
pub trait Component {
    /// What a message on the command topic asks of the component.
    type Request;

    /// What a completed request asks of the rest of the firmware.
    type Outcome;

    spec fn spec_unique_id(&self) -> Seq<char>;

    spec fn spec_state_topic(&self) -> Seq<char>;

    spec fn spec_command_topic(&self) -> Option<Seq<char>>;

    /// The JSON text of the component's discovery payload.
    spec fn spec_discovery_text(&self) -> Seq<char>;

    /// The request that a payload on the command topic makes, if any.
    spec fn spec_request(&self, payload: Seq<char>) -> Option<Self::Request>;

    fn unique_id(&self) -> (r: &String)
        ensures
            r@ == self.spec_unique_id(),
    ;

    fn state_topic(&self) -> (r: &String)
        ensures
            r@ == self.spec_state_topic(),
    ;

    fn command_topic(&self) -> (r: Option<&String>)
        ensures
            match self.spec_command_topic() {
                Some(t) => r matches Some(s) && s@ == t,
                None => r is None,
            },
    ;

    fn to_discovery_payload(&self) -> (v: JsonValue)
        ensures
            json_text(v) == self.spec_discovery_text(),
    ;

    fn process_message(&self, payload: &str) -> (r: Option<Self::Request>)
        ensures
            r == self.spec_request(payload@),
    ;

    /// `msg` is the message to publish for the request.
    spec fn message_for(&self, request: Self::Request, msg: PublishRequest) -> bool;

    /// Completing `request` after `sent` takes the component from `self` to
    /// `after` and gives `r`.
    spec fn completed_by(
        &self,
        after: Self,
        request: Self::Request,
        sent: Result<(), PublishError>,
        r: Result<Self::Outcome, PublishError>,
    ) -> bool where Self: Sized;

    /// The message to publish for the request.
    fn request_message(&self, request: &Self::Request) -> (msg: PublishRequest)
        ensures
            self.message_for(*request, msg),
    ;

    /// Completes the request once its message went out as `sent` says.  A
    /// failed publish is handed back; the component keeps its unique id.
    fn complete_request(&mut self, request: Self::Request, sent: Result<(), PublishError>) -> (r:
        Result<Self::Outcome, PublishError>) where Self: Sized
        ensures
            old(self).completed_by(*final(self), request, sent, r),
            final(self).spec_unique_id() == old(self).spec_unique_id(),
            sent matches Err(e) ==> r matches Err(e2) && e2 == e,
    ;
}

/// No two of the components have the same unique id.
pub open spec fn ids_distinct<C: Component>(cs: Seq<C>) -> bool {
    forall|i: int, j: int|
        0 <= i < cs.len() && 0 <= j < cs.len() && i != j ==> #[trigger] cs[i].spec_unique_id()
            != #[trigger] cs[j].spec_unique_id()
}

/// Where the component with the unique id stands, if one has it.
pub open spec fn component_index<C: Component>(cs: Seq<C>, id: Seq<char>) -> Option<int> {
    if exists|i: int| 0 <= i < cs.len() && #[trigger] cs[i].spec_unique_id() == id {
        Some(choose|i: int| 0 <= i < cs.len() && #[trigger] cs[i].spec_unique_id() == id)
    } else {
        None
    }
}

/// The components after registering `c`: it takes the place of the component
/// with its unique id, or comes last where there is none.
pub open spec fn registered<C: Component>(cs: Seq<C>, c: C) -> Seq<C> {
    match component_index(cs, c.spec_unique_id()) {
        Some(i) => cs.update(i, c),
        None => cs.push(c),
    }
}

/// The command topics of the components that have one, in order.
pub open spec fn command_topics_of<C: Component>(cs: Seq<C>) -> Seq<Seq<char>>
    decreases cs.len(),
{
    if cs.len() == 0 {
        Seq::empty()
    } else {
        let rest = command_topics_of(cs.drop_last());
        match cs.last().spec_command_topic() {
            Some(t) => rest.push(t),
            None => rest,
        }
    }
}

/// The members of the `cmps` object: each component's unique id with its
/// discovery payload.
pub open spec fn component_members<C: Component>(cs: Seq<C>) -> Seq<(Seq<char>, Seq<char>)> {
    cs.map_values(|c: C| (c.spec_unique_id(), c.spec_discovery_text()))
}

/// The members of a device's discovery payload.
pub open spec fn device_discovery_members<C: Component>(
    config: MqttConfigView,
    manufacturer: Seq<char>,
    cs: Seq<C>,
) -> Seq<(Seq<char>, Seq<char>)> {
    seq![
        ("state_topic"@, json_string_text(config.state_topic())),
        ("qos"@, json_decimal_text(2)),
        (
            "dev"@,
            json_object_text(
                seq![
                    ("ids"@, json_string_text(config.unique_id)),
                    ("name"@, json_string_text(config.name)),
                    ("mf"@, json_string_text(manufacturer)),
                    ("mdl"@, json_string_text(config.name)),
                ],
            ),
        ),
        ("o"@, json_object_text(seq![("name"@, json_string_text(config.name))])),
        ("cmps"@, json_object_text(component_members(cs))),
    ]
}

/// Why an incoming message reached no component.
#[derive(Debug, PartialEq, Eq)]
pub enum DispatchError {
    /// The topic has no third level, where the unique id stands.
    TopicMismatch,
    /// No component has the unique id of the third level.
    UnknownComponent { unique_id: String },
}

/// Where an incoming message goes: the component at `index`, and what it asks
/// of it.
pub struct Dispatch<R> {
    pub index: usize,
    pub request: Option<R>,
}

/// The device that Home Assistant discovers, with its components.
pub struct Device<C: Component> {
    mqtt_config: MqttConfig,
    discovery_topic: String,
    manufacturer: String,
    components: Vec<C>,
}

impl<C: Component> Device<C> {
    #[verifier::type_invariant]
    spec fn well_formed(self) -> bool {
        &&& self.mqtt_config@.platform == "device"@
        &&& self.discovery_topic@ == ha_topic("device"@, self.mqtt_config@.unique_id, "config"@)
        &&& ids_distinct(self.components@)
    }

    /// The device's MQTT identity.
    pub closed spec fn config(&self) -> MqttConfigView {
        self.mqtt_config@
    }

    pub closed spec fn manufacturer_view(&self) -> Seq<char> {
        self.manufacturer@
    }

    /// The registered components, in order.
    pub closed spec fn components(&self) -> Seq<C> {
        self.components@
    }

    /// `homeassistant/device/<unique_id>/config`.
    pub open spec fn discovery_topic_view(&self) -> Seq<char> {
        ha_topic("device"@, self.config().unique_id, "config"@)
    }

    /// A device without components, on the platform `device`.
    pub fn new(unique_id: String, name: String, manufacturer: String) -> (d: Self)
        ensures
            d.config() == (MqttConfigView { unique_id: unique_id@, name: name@, platform: "device"@ }),
            d.manufacturer_view() == manufacturer@,
            d.components() == Seq::<C>::empty(),
    {
        let platform = String::from_str("device");
        let discovery_topic = make_ha_topic(platform.as_str(), unique_id.as_str(), "config");
        let mqtt_config = MqttConfig::new(unique_id, name, platform);
        Device { mqtt_config, discovery_topic, manufacturer, components: Vec::new() }
    }

    /// Where the component with the unique id stands.
    pub fn find_component(&self, unique_id: &str) -> (r: Option<usize>)
        ensures
            match r {
                Some(i) => component_index(self.components(), unique_id@) == Some(i as int),
                None => component_index(self.components(), unique_id@) is None,
            },
    {
        proof {
            use_type_invariant(self);
        }
        let key = String::from_str(unique_id);
        let n = self.components.len();
        let mut i: usize = 0;
        while i < n
            invariant
                n == self.components@.len(),
                i <= n,
                key@ == unique_id@,
                ids_distinct(self.components@),
                forall|j: int| 0 <= j < i ==> #[trigger] self.components@[j].spec_unique_id() != key@,
            decreases n - i,
        {
            if self.components[i].unique_id().eq(&key) {
                assert(self.components@[i as int].spec_unique_id() == unique_id@);
                return Some(i);
            }
            i = i + 1;
        }
        None
    }

    pub fn component(&self, index: usize) -> (c: &C)
        requires
            index < self.components().len(),
        ensures
            *c == self.components()[index as int],
    {
        &self.components[index]
    }

    /// Registers the component under its unique id: it takes the place of a
    /// component with the same id, or comes last.
    pub fn register(&mut self, component: C)
        ensures
            final(self).config() == old(self).config(),
            final(self).manufacturer_view() == old(self).manufacturer_view(),
            final(self).components() == registered(old(self).components(), component),
            ids_distinct(final(self).components()),
    {
        proof {
            use_type_invariant(&*self);
        }
        let key = component.unique_id().as_str();
        assert(key@ == component.spec_unique_id());
        let found = self.find_component(key);
        let ghost id = component.spec_unique_id();

        let mut cs: Vec<C> = Vec::new();
        std::mem::swap(&mut cs, &mut self.components);
        let ghost before = cs@;
        match found {
            Some(i) => {
                assert(before[i as int].spec_unique_id() == id);
                cs[i] = component;
                assert forall|a: int, b: int|
                    0 <= a < cs@.len() && 0 <= b < cs@.len() && a != b implies #[trigger] cs@[a].spec_unique_id()
                    != #[trigger] cs@[b].spec_unique_id() by {
                    assert(before[a].spec_unique_id() == cs@[a].spec_unique_id());
                    assert(before[b].spec_unique_id() == cs@[b].spec_unique_id());
                }
            },
            None => {
                cs.push(component);
                assert forall|j: int| 0 <= j < before.len() implies #[trigger] before[j].spec_unique_id()
                    != id by {
                    if before[j].spec_unique_id() == id {
                        assert(exists|k: int|
                            0 <= k < before.len() && #[trigger] before[k].spec_unique_id() == id);
                    }
                }
                assert forall|a: int, b: int|
                    0 <= a < cs@.len() && 0 <= b < cs@.len() && a != b implies #[trigger] cs@[a].spec_unique_id()
                    != #[trigger] cs@[b].spec_unique_id() by {
                    if a < before.len() && b < before.len() {
                        assert(before[a] == cs@[a]);
                        assert(before[b] == cs@[b]);
                    } else if a < before.len() {
                        assert(before[a] == cs@[a]);
                    } else {
                        assert(before[b] == cs@[b]);
                    }
                }
            },
        }
        self.components = cs;
    }

    /// The command topics of the components that have one, in order: the
    /// topics that the device subscribes to.
    pub fn subscribe_command_topics(&self) -> (topics: Vec<String>)
        ensures
            topics@.map_values(|t: String| t@) == command_topics_of(self.components()),
    {
        let mut topics: Vec<String> = Vec::new();
        let n = self.components.len();
        let mut i: usize = 0;
        while i < n
            invariant
                n == self.components@.len(),
                i <= n,
                topics@.map_values(|t: String| t@) =~= command_topics_of(
                    self.components@.take(i as int),
                ),
            decreases n - i,
        {
            match self.components[i].command_topic() {
                Some(t) => {
                    topics.push(t.clone());
                },
                None => {},
            }
            i = i + 1;
            assert(self.components@.take(i as int).drop_last() =~= self.components@.take(
                (i - 1) as int,
            ));
            assert(topics@.map_values(|t: String| t@) =~= command_topics_of(
                self.components@.take(i as int),
            ));
        }
        assert(self.components@.take(n as int) =~= self.components@);
        topics
    }

    /// The device's discovery payload: its state topic, quality of service
    /// 2, the device and origin descriptions, and under `cmps` the payload of
    /// every component keyed by its unique id.
    pub fn build_discovery_payload(&self) -> (v: JsonValue)
        ensures
            json_text(v) == json_object_text(
                device_discovery_members(self.config(), self.manufacturer_view(), self.components()),
            ),
    {
        proof {
            use_type_invariant(self);
            reveal_strlit("state_topic");
            reveal_strlit("qos");
            reveal_strlit("dev");
            reveal_strlit("o");
            reveal_strlit("cmps");
            reveal_strlit("ids");
            reveal_strlit("name");
            reveal_strlit("mf");
            reveal_strlit("mdl");
        }
        let name = self.mqtt_config.name().as_str();
        let mut dev = json_new_object();
        json_insert(&mut dev, "ids", json_from_str(self.mqtt_config.unique_id().as_str()));
        json_insert(&mut dev, "name", json_from_str(name));
        json_insert(&mut dev, "mf", json_from_str(self.manufacturer.as_str()));
        json_insert(&mut dev, "mdl", json_from_str(name));
        assert(json_members(dev) =~= seq![
            ("ids"@, json_string_text(self.config().unique_id)),
            ("name"@, json_string_text(self.config().name)),
            ("mf"@, json_string_text(self.manufacturer_view())),
            ("mdl"@, json_string_text(self.config().name)),
        ]);
        let mut origin = json_new_object();
        json_insert(&mut origin, "name", json_from_str(name));
        assert(json_members(origin) =~= seq![("name"@, json_string_text(self.config().name))]);
        let mut entities = json_new_object();
        let n = self.components.len();
        let mut i: usize = 0;
        assert(self.components@.take(0) =~= Seq::<C>::empty());
        assert(component_members(self.components@.take(0)) =~= Seq::<(Seq<char>, Seq<char>)>::empty());
        while i < n
            invariant
                n == self.components@.len(),
                i <= n,
                ids_distinct(self.components@),
                json_is_object(entities),
                json_members(entities) == component_members(self.components@.take(i as int)),
            decreases n - i,
        {
            let c = &self.components[i];
            let ghost before = json_members(entities);
            let ghost id = c.spec_unique_id();
            assert forall|j: int| 0 <= j < before.len() implies #[trigger] before[j].0 != id by {
                assert(before[j].0 == self.components@[j].spec_unique_id());
            }
            json_insert(&mut entities, c.unique_id().as_str(), c.to_discovery_payload());
            i = i + 1;
            assert(component_members(self.components@.take(i as int)) =~= before.push(
                (id, c.spec_discovery_text()),
            ));
        }
        assert(self.components@.take(n as int) =~= self.components@);
        assert(json_text(entities) == json_object_text(component_members(self.components())));
        let mut payload = json_new_object();
        json_insert(&mut payload, "state_topic", json_from_str(self.mqtt_config.state_topic().as_str()));
        json_insert(&mut payload, "qos", json_from_u8(2));
        json_insert(&mut payload, "dev", dev);
        json_insert(&mut payload, "o", origin);
        json_insert(&mut payload, "cmps", entities);
        assert(json_members(payload) =~= device_discovery_members(
            self.config(),
            self.manufacturer_view(),
            self.components(),
        ));
        payload
    }

    /// The discovery message: the discovery payload as compact JSON on
    /// `homeassistant/device/<unique_id>/config`, retained, exactly once.
    pub fn send_discovery_message(&self) -> (msg: PublishRequest)
        ensures
            msg.topic@ == self.discovery_topic_view(),
            msg.qos == QoS::ExactlyOnce,
            msg.retain,
            msg.payload@ == json_object_text(
                device_discovery_members(self.config(), self.manufacturer_view(), self.components()),
            ),
    {
        proof {
            use_type_invariant(self);
        }
        let payload = self.build_discovery_payload();
        PublishRequest {
            topic: self.discovery_topic.clone(),
            qos: QoS::ExactlyOnce,
            retain: true,
            payload: json_stringify(payload),
        }
    }

    /// Routes a message: the third level of its topic names the component by
    /// its unique id, and the component turns the payload into a request.
    pub fn dispatch_event(&self, topic: &str, payload: &str) -> (r: Result<
        Dispatch<C::Request>,
        DispatchError,
    >)
        ensures
            match topic_level(topic@, 2) {
                None => r matches Err(DispatchError::TopicMismatch),
                Some(id) => match component_index(self.components(), id) {
                    None => r matches Err(DispatchError::UnknownComponent { unique_id }) && unique_id@
                        == id,
                    Some(i) => r matches Ok(d) && d.index == i && d.request == self.components()[i].spec_request(
                        payload@,
                    ),
                },
            },
    {
        match topic_level_at(topic, 2) {
            None => Err(DispatchError::TopicMismatch),
            Some(unique_id) => match self.find_component(unique_id.as_str()) {
                None => Err(DispatchError::UnknownComponent { unique_id }),
                Some(index) => {
                    let request = self.components[index].process_message(payload);
                    Ok(Dispatch { index, request })
                },
            },
        }
    }

    /// The message to publish for a request to the component at `index`.
    pub fn request_message(&self, index: usize, request: &C::Request) -> (msg: PublishRequest)
        requires
            index < self.components().len(),
        ensures
            self.components()[index as int].message_for(*request, msg),
    {
        self.components[index].request_message(request)
    }

    /// Completes a request to the component at `index` once its message went
    /// out as `sent` says; the other components stay as they are.
    pub fn complete_request(
        &mut self,
        index: usize,
        request: C::Request,
        sent: Result<(), PublishError>,
    ) -> (r: Result<C::Outcome, PublishError>)
        requires
            index < old(self).components().len(),
        ensures
            final(self).config() == old(self).config(),
            final(self).manufacturer_view() == old(self).manufacturer_view(),
            final(self).components().len() == old(self).components().len(),
            forall|j: int|
                0 <= j < old(self).components().len() && j != index ==> #[trigger] final(self).components()[j]
                    == old(self).components()[j],
            old(self).components()[index as int].completed_by(
                final(self).components()[index as int],
                request,
                sent,
                r,
            ),
            ids_distinct(final(self).components()),
            final(self).components()[index as int].spec_unique_id() == old(
                self,
            ).components()[index as int].spec_unique_id(),
            sent matches Err(e) ==> r matches Err(e2) && e2 == e,
    {
        proof {
            use_type_invariant(&*self);
        }
        let mut cs: Vec<C> = Vec::new();
        std::mem::swap(&mut cs, &mut self.components);
        let ghost before = cs@;
        let r = cs[index].complete_request(request, sent);
        assert forall|a: int, b: int|
            0 <= a < cs@.len() && 0 <= b < cs@.len() && a != b implies #[trigger] cs@[a].spec_unique_id()
            != #[trigger] cs@[b].spec_unique_id() by {
            assert(before[a].spec_unique_id() == cs@[a].spec_unique_id());
            assert(before[b].spec_unique_id() == cs@[b].spec_unique_id());
        }
        self.components = cs;
        r
    }
}

/// Registering a component keeps the unique ids distinct; afterwards the
/// component is found under its id, and every other id finds what it found
/// before, at the same place.
pub proof fn law_register_then_find<C: Component>(cs: Seq<C>, c: C)
    requires
        ids_distinct(cs),
    ensures
        ids_distinct(registered(cs, c)),
        component_index(registered(cs, c), c.spec_unique_id()) matches Some(i) && registered(cs, c)[i]
            == c,
        forall|id: Seq<char>|
            id != c.spec_unique_id() ==> #[trigger] component_index(registered(cs, c), id)
                == component_index(cs, id),
        forall|id: Seq<char>|
            id != c.spec_unique_id() && component_index(cs, id) is Some ==> registered(cs, c)[component_index(
                cs,
                id,
            ).unwrap()] == cs[component_index(cs, id).unwrap()],
{
    let id = c.spec_unique_id();
    let cs2 = registered(cs, c);
    match component_index(cs, id) {
        Some(i) => {
            assert(cs2 == cs.update(i, c));
            assert(cs[i].spec_unique_id() == id);
        },
        None => {
            assert(cs2 == cs.push(c));
            assert forall|j: int| 0 <= j < cs.len() implies #[trigger] cs[j].spec_unique_id() != id by {
                if cs[j].spec_unique_id() == id {
                    assert(exists|k: int| 0 <= k < cs.len() && #[trigger] cs[k].spec_unique_id() == id);
                }
            }
        },
    }
    assert forall|a: int, b: int|
        0 <= a < cs2.len() && 0 <= b < cs2.len() && a != b implies #[trigger] cs2[a].spec_unique_id()
        != #[trigger] cs2[b].spec_unique_id() by {
        if a < cs.len() && cs2[a] != c {
            assert(cs2[a] == cs[a]);
        }
        if b < cs.len() && cs2[b] != c {
            assert(cs2[b] == cs[b]);
        }
    }
    assert(exists|j: int| 0 <= j < cs2.len() && #[trigger] cs2[j].spec_unique_id() == id) by {
        match component_index(cs, id) {
            Some(i) => {
                assert(cs2[i].spec_unique_id() == id);
            },
            None => {
                assert(cs2[cs2.len() - 1].spec_unique_id() == id);
            },
        }
    }
    assert forall|other: Seq<char>| other != id implies #[trigger] component_index(cs2, other)
        == component_index(cs, other) by {
        let e1 = exists|j: int| 0 <= j < cs.len() && #[trigger] cs[j].spec_unique_id() == other;
        let e2 = exists|j: int| 0 <= j < cs2.len() && #[trigger] cs2[j].spec_unique_id() == other;
        if e1 {
            let j = choose|j: int| 0 <= j < cs.len() && #[trigger] cs[j].spec_unique_id() == other;
            assert(cs2[j].spec_unique_id() == other);
        }
        if e2 {
            let j = choose|j: int| 0 <= j < cs2.len() && #[trigger] cs2[j].spec_unique_id() == other;
            assert(cs2[j] != c);
            assert(j < cs.len());
            assert(cs[j].spec_unique_id() == other);
        }
        if e1 && e2 {
            let j1 = choose|j: int| 0 <= j < cs.len() && #[trigger] cs[j].spec_unique_id() == other;
            let j2 = choose|j: int| 0 <= j < cs2.len() && #[trigger] cs2[j].spec_unique_id() == other;
            assert(cs2[j1].spec_unique_id() == other);
            assert(j1 == j2);
        }
    }
}

/// The topics that a device subscribes to are the command topics of its
/// components, each one, in order: those that have one are kept and nothing
/// is added, whatever the topic.
pub proof fn law_subscribed_topics_are_command_topics<C: Component>(cs: Seq<C>)
    ensures
        command_topics_of(cs) == cs.filter_map(|c: C| c.spec_command_topic()),
        forall|i: int|
            0 <= i < cs.len() && (#[trigger] cs[i].spec_command_topic()) is Some ==> command_topics_of(
                cs,
            ).contains(cs[i].spec_command_topic().unwrap()),
        forall|k: int|
            0 <= k < command_topics_of(cs).len() ==> exists|i: int|
                0 <= i < cs.len() && #[trigger] cs[i].spec_command_topic() == Some(
                    #[trigger] command_topics_of(cs)[k],
                ),
        command_topics_of(cs).len() <= cs.len(),
    decreases cs.len(),
{
    let f = |c: C| c.spec_command_topic();
    if cs.len() > 0 {
        law_subscribed_topics_are_command_topics(cs.drop_last());
        let rest = command_topics_of(cs.drop_last());
        match cs.last().spec_command_topic() {
            Some(t) => {
                assert(rest.push(t) =~= cs.drop_last().filter_map(f) + seq![t]);
            },
            None => {},
        }
        assert forall|i: int|
            0 <= i < cs.len() && (#[trigger] cs[i].spec_command_topic()) is Some implies command_topics_of(
                cs,
            ).contains(cs[i].spec_command_topic().unwrap()) by {
            if i < cs.len() - 1 {
                assert(cs.drop_last()[i] == cs[i]);
                let k = choose|k: int| 0 <= k < rest.len() && rest[k] == cs[i].spec_command_topic().unwrap();
                assert(command_topics_of(cs)[k] == rest[k]);
            } else {
                assert(cs[i] == cs.last());
                assert(command_topics_of(cs)[rest.len() as int] == cs[i].spec_command_topic().unwrap());
            }
        }
        assert forall|k: int| 0 <= k < command_topics_of(cs).len() implies exists|i: int|
            0 <= i < cs.len() && #[trigger] cs[i].spec_command_topic() == Some(
                #[trigger] command_topics_of(cs)[k],
            ) by {
            if k < rest.len() {
                let i = choose|i: int|
                    0 <= i < cs.drop_last().len() && #[trigger] cs.drop_last()[i].spec_command_topic()
                        == Some(#[trigger] rest[k]);
                assert(cs[i] == cs.drop_last()[i]);
                assert(command_topics_of(cs)[k] == rest[k]);
            } else {
                assert(cs[cs.len() - 1] == cs.last());
            }
        }
    } else {
        assert(cs.filter_map(f) =~= Seq::<Seq<char>>::empty());
    }
}

/// Every registered component is announced under `cmps`, one member each,
/// in order: its unique id with its whole discovery payload.
pub proof fn law_every_component_is_announced<C: Component>(cs: Seq<C>)
    ensures
        component_members(cs).len() == cs.len(),
        forall|i: int|
            0 <= i < cs.len() ==> #[trigger] component_members(cs)[i] == (
                cs[i].spec_unique_id(),
                cs[i].spec_discovery_text(),
            ),
{
}

/// The state topic of an entity holds its platform and its unique id, each
/// whole: `homeassistant/<platform>/<unique_id>/state`.
pub proof fn law_state_topic_parts(v: MqttConfigView)
    ensures
        v.state_topic() == seq![
            'h', 'o', 'm', 'e', 'a', 's', 's', 'i', 's', 't', 'a', 'n', 't', '/'
        ] + v.platform + seq!['/'] + v.unique_id + seq!['/', 's', 't', 'a', 't', 'e'],
{
    reveal_strlit("state");
    reveal_strlit("homeassistant/");
    reveal_strlit("/");
    assert(v.state_topic() =~= seq![
        'h', 'o', 'm', 'e', 'a', 's', 's', 'i', 's', 't', 'a', 'n', 't', '/'
    ] + v.platform + seq!['/'] + v.unique_id + seq!['/', 's', 't', 'a', 't', 'e']);
}

/// A device's discovery topic holds its unique id whole:
/// `homeassistant/device/<unique_id>/config`.
pub proof fn law_discovery_topic_parts<C: Component>(d: Device<C>)
    ensures
        d.discovery_topic_view() == seq![
            'h', 'o', 'm', 'e', 'a', 's', 's', 'i', 's', 't', 'a', 'n', 't', '/', 'd', 'e', 'v',
            'i', 'c', 'e', '/'
        ] + d.config().unique_id + seq!['/', 'c', 'o', 'n', 'f', 'i', 'g'],
{
    reveal_strlit("device");
    reveal_strlit("config");
    reveal_strlit("homeassistant/");
    reveal_strlit("/");
    assert(d.discovery_topic_view() =~= seq![
        'h', 'o', 'm', 'e', 'a', 's', 's', 'i', 's', 't', 'a', 'n', 't', '/', 'd', 'e', 'v',
        'i', 'c', 'e', '/'
    ] + d.config().unique_id + seq!['/', 'c', 'o', 'n', 'f', 'i', 'g']);
}

/// Where a component is found, it has the unique id; where none is found,
/// no component has it.
pub proof fn law_component_index<C: Component>(cs: Seq<C>, id: Seq<char>)
    ensures
        component_index(cs, id) matches Some(i) ==> 0 <= i < cs.len() && cs[i].spec_unique_id() == id,
        component_index(cs, id) is None ==> forall|i: int|
            0 <= i < cs.len() ==> #[trigger] cs[i].spec_unique_id() != id,
{
}

/// The device's discovery payload has five members, in this order: the
/// state topic, quality of service 2, the device description with its
/// unique id, name, manufacturer and model (the name), the origin with its
/// name, and every component under `cmps`; each text is whole.
pub proof fn law_device_discovery_members<C: Component>(
    config: MqttConfigView,
    manufacturer: Seq<char>,
    cs: Seq<C>,
)
    ensures
        ({
            let ms = device_discovery_members(config, manufacturer, cs);
            &&& ms.len() == 5
            &&& ms[0] == (seq!['s', 't', 'a', 't', 'e', '_', 't', 'o', 'p', 'i', 'c'], json_string_text(
                config.state_topic(),
            ))
            &&& ms[1] == (seq!['q', 'o', 's'], seq!['2'])
            &&& ms[2] == (seq!['d', 'e', 'v'], json_object_text(
                seq![
                    (seq!['i', 'd', 's'], json_string_text(config.unique_id)),
                    (seq!['n', 'a', 'm', 'e'], json_string_text(config.name)),
                    (seq!['m', 'f'], json_string_text(manufacturer)),
                    (seq!['m', 'd', 'l'], json_string_text(config.name)),
                ],
            ))
            &&& ms[3] == (seq!['o'], json_object_text(
                seq![(seq!['n', 'a', 'm', 'e'], json_string_text(config.name))],
            ))
            &&& ms[4] == (seq!['c', 'm', 'p', 's'], json_object_text(component_members(cs)))
        }),
{
    reveal_strlit("state_topic");
    reveal_strlit("qos");
    reveal_strlit("dev");
    reveal_strlit("o");
    reveal_strlit("cmps");
    reveal_strlit("ids");
    reveal_strlit("name");
    reveal_strlit("mf");
    reveal_strlit("mdl");
    assert("state_topic"@ =~= seq!['s', 't', 'a', 't', 'e', '_', 't', 'o', 'p', 'i', 'c']);
    assert("qos"@ =~= seq!['q', 'o', 's']);
    assert("dev"@ =~= seq!['d', 'e', 'v']);
    assert("o"@ =~= seq!['o']);
    assert("cmps"@ =~= seq!['c', 'm', 'p', 's']);
    assert("ids"@ =~= seq!['i', 'd', 's']);
    assert("name"@ =~= seq!['n', 'a', 'm', 'e']);
    assert("mf"@ =~= seq!['m', 'f']);
    assert("mdl"@ =~= seq!['m', 'd', 'l']);
    assert(json_decimal_text(2) == seq!['2']);
}

} // verus!
