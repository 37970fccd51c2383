//! A switch entity: its state, the messages that announce it, and the
//! listeners that follow it.
use vstd::prelude::*;
use vstd::string::*;

use json::JsonValue;

use crate::json_doc::{
    lemma_member_insert,
    json_from_str, json_insert, json_is_object, json_member_insert, json_members, json_new_object,
    json_object_text, json_string_text,
};
use crate::mqtt::device::{
    component_index, ids_distinct, law_register_then_find, registered, Component, MqttConfig,
    MqttConfigView,
};
use crate::mqtt::message::{PublishError, PublishRequest, QoS};
use crate::mqtt::topic::{ha_topic, lemma_ha_topic_unique_id_level, make_ha_topic, topic_level};

verus! {

/// The two states of a switch.
#[derive(Clone, Copy, Debug, PartialEq, Eq, Structural)]
pub enum SwitchState {
    On,
    Off,
}

/// The payload that announces a state: `ON` or `OFF`.
pub open spec fn state_payload(state: SwitchState) -> Seq<char> {
    match state {
        SwitchState::On => "ON"@,
        SwitchState::Off => "OFF"@,
    }
}

/// The state of a switch that is on or off.
pub open spec fn state_of(is_on: bool) -> SwitchState {
    if is_on {
        SwitchState::On
    } else {
        SwitchState::Off
    }
}

impl SwitchState {
    /// The payload that announces the state: `ON` or `OFF`.
    pub fn payload(&self) -> (s: String)
        ensures
            s@ == state_payload(*self),
    {
        match self {
            SwitchState::On => String::from_str("ON"),
            SwitchState::Off => String::from_str("OFF"),
        }
    }
}

/// What a switch asks of its component: switch on, switch off, or turn over.
#[derive(Clone, Copy, Debug, PartialEq, Eq, Structural)]
pub enum SwitchCommand {
    On,
    Off,
    Toggle,
}

/// The state that a command leads to from the state `is_on`.
pub open spec fn command_target(is_on: bool, command: SwitchCommand) -> SwitchState {
    match command {
        SwitchCommand::On => SwitchState::On,
        SwitchCommand::Off => SwitchState::Off,
        SwitchCommand::Toggle => state_of(!is_on),
    }
}

/// An order to one registered listener: follow the switch into `state`.
#[derive(Clone, Copy, Debug, PartialEq, Eq, Structural)]
pub struct ListenerCommand {
    pub listener: usize,
    pub state: SwitchState,
}

/// The orders that bring every listener, in the order of registration, into `state`.
pub open spec fn listener_commands(listeners: Seq<usize>, state: SwitchState) -> Seq<ListenerCommand> {
    listeners.map_values(|l: usize| ListenerCommand { listener: l, state: state })
}

/// What a switch is: its MQTT identity, the extra discovery settings, whether
/// it is on, and the listeners registered with it.
pub struct SwitchView {
    pub config: MqttConfigView,
    pub additional: Seq<(Seq<char>, Seq<char>)>,
    pub is_on: bool,
    pub listeners: Seq<usize>,
}

impl SwitchView {
    /// `homeassistant/switch/<unique_id>/set`, where commands arrive.
    pub open spec fn command_topic(self) -> Seq<char> {
        ha_topic(self.config.platform, self.config.unique_id, "set"@)
    }

    /// The same switch, on or off.
    pub open spec fn with_is_on(self, is_on: bool) -> SwitchView {
        SwitchView { is_on: is_on, ..self }
    }
}

/// What happens to a switch: a listener is registered, or a command is
/// completed after its message was published (`true`) or could not be
/// (`false`).
#[derive(Clone, Copy, Debug, PartialEq, Eq, Structural)]
pub enum SwitchEvent {
    Register(usize),
    Completed(SwitchCommand, bool),
}

/// The switch after one event.
pub open spec fn switch_step(v: SwitchView, e: SwitchEvent) -> SwitchView {
    match e {
        SwitchEvent::Register(l) => SwitchView { listeners: v.listeners.push(l), ..v },
        SwitchEvent::Completed(command, published) => if published {
            v.with_is_on(command_target(v.is_on, command) == SwitchState::On)
        } else {
            v
        },
    }
}

/// The switch after the events, one after the other.
pub open spec fn switch_run(v: SwitchView, events: Seq<SwitchEvent>) -> SwitchView
    decreases events.len(),
{
    if events.len() == 0 {
        v
    } else {
        switch_step(switch_run(v, events.drop_last()), events.last())
    }
}

/// Whether a switch that started as `initial` is on after the events: the
/// last published `On` or `Off` sets it, a published `Toggle` turns over what
/// was set before, and registrations and unpublished commands leave it.
pub open spec fn last_set_state(initial: bool, events: Seq<SwitchEvent>) -> bool
    decreases events.len(),
{
    if events.len() == 0 {
        initial
    } else {
        let before = last_set_state(initial, events.drop_last());
        match events.last() {
            SwitchEvent::Completed(SwitchCommand::On, true) => true,
            SwitchEvent::Completed(SwitchCommand::Off, true) => false,
            SwitchEvent::Completed(SwitchCommand::Toggle, true) => !before,
            _ => before,
        }
    }
}

/// No two extra settings have the same key.
pub open spec fn setting_keys_distinct(settings: Seq<(Seq<char>, Seq<char>)>) -> bool {
    forall|i: int, j: int|
        0 <= i < settings.len() && 0 <= j < settings.len() && i != j ==> #[trigger] settings[i].0
            != #[trigger] settings[j].0
}

/// The discovery members of a switch before the extra settings.
pub open spec fn switch_base_members(v: SwitchView) -> Seq<(Seq<char>, Seq<char>)> {
    seq![
        ("platform"@, json_string_text(v.config.platform)),
        ("name"@, json_string_text(v.config.name)),
        ("unique_id"@, json_string_text(v.config.unique_id)),
        ("state_topic"@, json_string_text(v.config.state_topic())),
        ("command_topic"@, json_string_text(v.command_topic())),
    ]
}

/// The members after inserting each extra setting, in order, as a string.
pub open spec fn insert_settings(
    ms: Seq<(Seq<char>, Seq<char>)>,
    settings: Seq<(Seq<char>, Seq<char>)>,
) -> Seq<(Seq<char>, Seq<char>)>
    decreases settings.len(),
{
    if settings.len() == 0 {
        ms
    } else {
        let ms0 = insert_settings(ms, settings.drop_last());
        json_member_insert(ms0, settings.last().0, json_string_text(settings.last().1))
    }
}

/// The discovery members of a switch: its platform, name, unique id and
/// topics, then the extra settings, each of which overrides a member with
/// the same key.
pub open spec fn switch_discovery_members(v: SwitchView) -> Seq<(Seq<char>, Seq<char>)> {
    insert_settings(switch_base_members(v), v.additional)
}

/// A switch entity of Home Assistant.
pub struct Switch {
    mqtt_config: MqttConfig,
    command_topic: String,
    additional_discovery_config: Vec<(String, String)>,
    is_on: bool,
    listeners: Vec<usize>,
}

/// The view of the extra settings.
pub open spec fn settings_view(settings: Seq<(String, String)>) -> Seq<(Seq<char>, Seq<char>)> {
    settings.map_values(|p: (String, String)| (p.0@, p.1@))
}

impl View for Switch {
    type V = SwitchView;

    closed spec fn view(&self) -> SwitchView {
        SwitchView {
            config: self.mqtt_config@,
            additional: settings_view(self.additional_discovery_config@),
            is_on: self.is_on,
            listeners: self.listeners@,
        }
    }
}

impl Switch {
    #[verifier::type_invariant]
    spec fn topics_follow(self) -> bool {
        &&& self.mqtt_config@.platform == "switch"@
        &&& self.command_topic@ == ha_topic("switch"@, self.mqtt_config@.unique_id, "set"@)
        &&& setting_keys_distinct(settings_view(self.additional_discovery_config@))
    }

    /// A switch that is off and has no listeners, on the platform `switch`,
    /// with the command topic `homeassistant/switch/<unique_id>/set`.
    pub fn new(
        unique_id: String,
        name: String,
        additional_discovery_config: Vec<(String, String)>,
    ) -> (s: Self)
        requires
            setting_keys_distinct(settings_view(additional_discovery_config@)),
        ensures
            s@ == (SwitchView {
                config: MqttConfigView { unique_id: unique_id@, name: name@, platform: "switch"@ },
                additional: settings_view(additional_discovery_config@),
                is_on: false,
                listeners: Seq::empty(),
            }),
    {
        let platform = String::from_str("switch");
        let command_topic = make_ha_topic(platform.as_str(), unique_id.as_str(), "set");
        let mqtt_config = MqttConfig::new(unique_id, name, platform);
        Switch {
            mqtt_config,
            command_topic,
            additional_discovery_config,
            is_on: false,
            listeners: Vec::new(),
        }
    }

    /// Registers a listener, which from now on follows every change of state.
    pub fn register(&mut self, listener: usize)
        ensures
            final(self)@ == (SwitchView { listeners: old(self)@.listeners.push(listener), ..old(self)@ }),
            final(self)@ == switch_step(old(self)@, SwitchEvent::Register(listener)),
    {
        proof {
            use_type_invariant(&*self);
        }
        let mut listeners = Vec::new();
        std::mem::swap(&mut listeners, &mut self.listeners);
        listeners.push(listener);
        self.listeners = listeners;
    }

    pub fn is_on(&self) -> (r: bool)
        ensures
            r == self@.is_on,
    {
        self.is_on
    }

    /// The message that announces `state` on the state topic: retained, at
    /// least once.
    pub fn send_state(&self, state: SwitchState) -> (msg: PublishRequest)
        ensures
            msg.topic@ == self@.config.state_topic(),
            msg.qos == QoS::AtLeastOnce,
            msg.retain,
            msg.payload@ == state_payload(state),
    {
        PublishRequest {
            topic: self.mqtt_config.state_topic().clone(),
            qos: QoS::AtLeastOnce,
            retain: true,
            payload: state.payload(),
        }
    }

    /// The state that a toggle leads to: the other one.
    pub fn toggled_state(&self) -> (state: SwitchState)
        ensures
            state == state_of(!self@.is_on),
    {
        if self.is_on {
            SwitchState::Off
        } else {
            SwitchState::On
        }
    }

    /// The orders that bring every listener into the switch's state.
    pub fn update_listeners(&self) -> (cmds: Vec<ListenerCommand>)
        ensures
            cmds@ == listener_commands(self@.listeners, state_of(self@.is_on)),
    {
        let state = if self.is_on {
            SwitchState::On
        } else {
            SwitchState::Off
        };
        let mut cmds: Vec<ListenerCommand> = Vec::new();
        let n = self.listeners.len();
        let mut i: usize = 0;
        while i < n
            invariant
                n == self.listeners@.len(),
                i <= n,
                state == state_of(self.is_on),
                cmds@ =~= listener_commands(self.listeners@.take(i as int), state),
            decreases n - i,
        {
            cmds.push(ListenerCommand { listener: self.listeners[i], state });
            i = i + 1;
            assert(cmds@ =~= listener_commands(self.listeners@.take(i as int), state));
        }
        assert(self.listeners@.take(n as int) =~= self.listeners@);
        cmds
    }

    /// Completes a change into `state` once its announcement went out as
    /// `sent` says: on success the switch takes the state and every listener
    /// is ordered to follow; on failure nothing changes and the error is
    /// handed back.
    fn change_state(&mut self, state: SwitchState, sent: Result<(), PublishError>) -> (r: Result<
        Vec<ListenerCommand>,
        PublishError,
    >)
        ensures
            match sent {
                Ok(()) => {
                    &&& final(self)@ == old(self)@.with_is_on(state == SwitchState::On)
                    &&& r matches Ok(cmds) && cmds@ == listener_commands(old(self)@.listeners, state)
                },
                Err(e) => final(self)@ == old(self)@ && r == Err::<Vec<ListenerCommand>, PublishError>(e),
            },
    {
        proof {
            use_type_invariant(&*self);
        }
        match sent {
            Ok(()) => {
                self.is_on = match state {
                    SwitchState::On => true,
                    SwitchState::Off => false,
                };
                Ok(self.update_listeners())
            },
            Err(e) => Err(e),
        }
    }

    /// Switches on once `send_state(On)` was published as `sent` says.
    pub fn switch_on(&mut self, sent: Result<(), PublishError>) -> (r: Result<
        Vec<ListenerCommand>,
        PublishError,
    >)
        ensures
            final(self)@ == switch_step(old(self)@, SwitchEvent::Completed(SwitchCommand::On, sent is Ok)),
            match sent {
                Ok(()) => {
                    &&& final(self)@ == old(self)@.with_is_on(true)
                    &&& r matches Ok(cmds) && cmds@ == listener_commands(
                        old(self)@.listeners,
                        SwitchState::On,
                    )
                },
                Err(e) => final(self)@ == old(self)@ && r == Err::<Vec<ListenerCommand>, PublishError>(e),
            },
    {
        self.change_state(SwitchState::On, sent)
    }

    /// Switches off once `send_state(Off)` was published as `sent` says.
    pub fn switch_off(&mut self, sent: Result<(), PublishError>) -> (r: Result<
        Vec<ListenerCommand>,
        PublishError,
    >)
        ensures
            final(self)@ == switch_step(old(self)@, SwitchEvent::Completed(SwitchCommand::Off, sent is Ok)),
            match sent {
                Ok(()) => {
                    &&& final(self)@ == old(self)@.with_is_on(false)
                    &&& r matches Ok(cmds) && cmds@ == listener_commands(
                        old(self)@.listeners,
                        SwitchState::Off,
                    )
                },
                Err(e) => final(self)@ == old(self)@ && r == Err::<Vec<ListenerCommand>, PublishError>(e),
            },
    {
        self.change_state(SwitchState::Off, sent)
    }

    /// Turns the switch over once `send_state(toggled_state())` was published
    /// as `sent` says.
    pub fn toggle(&mut self, sent: Result<(), PublishError>) -> (r: Result<
        Vec<ListenerCommand>,
        PublishError,
    >)
        ensures
            final(self)@ == switch_step(old(self)@, SwitchEvent::Completed(SwitchCommand::Toggle, sent is Ok)),
            match sent {
                Ok(()) => {
                    &&& final(self)@ == old(self)@.with_is_on(!old(self)@.is_on)
                    &&& r matches Ok(cmds) && cmds@ == listener_commands(
                        old(self)@.listeners,
                        state_of(!old(self)@.is_on),
                    )
                },
                Err(e) => final(self)@ == old(self)@ && r == Err::<Vec<ListenerCommand>, PublishError>(e),
            },
    {
        let state = self.toggled_state();
        self.change_state(state, sent)
    }
}

/// The command that a payload on the command topic gives: `ON` or `OFF`;
/// anything else is ignored.
pub open spec fn command_of_payload(payload: Seq<char>) -> Option<SwitchCommand> {
    if payload == "ON"@ {
        Some(SwitchCommand::On)
    } else if payload == "OFF"@ {
        Some(SwitchCommand::Off)
    } else {
        None
    }
}

impl Component for Switch {
    type Request = SwitchCommand;

    type Outcome = Vec<ListenerCommand>;

    open spec fn spec_unique_id(&self) -> Seq<char> {
        self@.config.unique_id
    }

    open spec fn spec_state_topic(&self) -> Seq<char> {
        self@.config.state_topic()
    }

    open spec fn spec_command_topic(&self) -> Option<Seq<char>> {
        Some(self@.command_topic())
    }

    open spec fn spec_discovery_text(&self) -> Seq<char> {
        json_object_text(switch_discovery_members(self@))
    }

    open spec fn spec_request(&self, payload: Seq<char>) -> Option<SwitchCommand> {
        command_of_payload(payload)
    }

    open spec fn message_for(&self, request: SwitchCommand, msg: PublishRequest) -> bool {
        &&& msg.topic@ == self@.config.state_topic()
        &&& msg.qos == QoS::AtLeastOnce
        &&& msg.retain
        &&& msg.payload@ == state_payload(command_target(self@.is_on, request))
    }

    open spec fn completed_by(
        &self,
        after: Self,
        request: SwitchCommand,
        sent: Result<(), PublishError>,
        r: Result<Vec<ListenerCommand>, PublishError>,
    ) -> bool {
        let target = command_target(self@.is_on, request);
        match sent {
            Ok(()) => {
                &&& after@ == self@.with_is_on(target == SwitchState::On)
                &&& r matches Ok(cmds) && cmds@ == listener_commands(self@.listeners, target)
            },
            Err(e) => after@ == self@ && r == Err::<Vec<ListenerCommand>, PublishError>(e),
        }
    }

    fn unique_id(&self) -> (r: &String) {
        self.mqtt_config.unique_id()
    }

    fn state_topic(&self) -> (r: &String) {
        self.mqtt_config.state_topic()
    }

    fn command_topic(&self) -> (r: Option<&String>) {
        proof {
            use_type_invariant(self);
        }
        Some(&self.command_topic)
    }

    fn to_discovery_payload(&self) -> (v: JsonValue) {
        proof {
            use_type_invariant(self);
            reveal_strlit("platform");
            reveal_strlit("name");
            reveal_strlit("unique_id");
            reveal_strlit("state_topic");
            reveal_strlit("command_topic");
        }
        let mut message = json_new_object();
        json_insert(&mut message, "platform", json_from_str(self.mqtt_config.platform().as_str()));
        json_insert(&mut message, "name", json_from_str(self.mqtt_config.name().as_str()));
        json_insert(&mut message, "unique_id", json_from_str(self.mqtt_config.unique_id().as_str()));
        json_insert(
            &mut message,
            "state_topic",
            json_from_str(self.mqtt_config.state_topic().as_str()),
        );
        json_insert(&mut message, "command_topic", json_from_str(self.command_topic.as_str()));
        let ghost base = switch_base_members(self@);
        assert(json_members(message) =~= base);
        let ghost settings = self@.additional;
        assert(settings.take(0) =~= Seq::<(Seq<char>, Seq<char>)>::empty());
        let n = self.additional_discovery_config.len();
        let mut i: usize = 0;
        while i < n
            invariant
                n == self.additional_discovery_config@.len(),
                i <= n,
                settings == self@.additional,
                settings == settings_view(self.additional_discovery_config@),
                json_is_object(message),
                json_members(message) == insert_settings(base, settings.take(i as int)),
            decreases n - i,
        {
            let entry = &self.additional_discovery_config[i];
            json_insert(&mut message, entry.0.as_str(), json_from_str(entry.1.as_str()));
            assert(settings.take(i + 1).drop_last() =~= settings.take(i as int));
            i = i + 1;
        }
        assert(settings.take(n as int) =~= settings);
        message
    }

    fn process_message(&self, payload: &str) -> (r: Option<SwitchCommand>) {
        let payload = String::from_str(payload);
        if payload.eq(&SwitchState::On.payload()) {
            Some(SwitchCommand::On)
        } else if payload.eq(&SwitchState::Off.payload()) {
            Some(SwitchCommand::Off)
        } else {
            None
        }
    }

    fn request_message(&self, request: &SwitchCommand) -> (msg: PublishRequest) {
        let state = match request {
            SwitchCommand::On => SwitchState::On,
            SwitchCommand::Off => SwitchState::Off,
            SwitchCommand::Toggle => self.toggled_state(),
        };
        self.send_state(state)
    }

    fn complete_request(&mut self, request: SwitchCommand, sent: Result<(), PublishError>) -> (r:
        Result<Vec<ListenerCommand>, PublishError>) {
        match request {
            SwitchCommand::On => self.switch_on(sent),
            SwitchCommand::Off => self.switch_off(sent),
            SwitchCommand::Toggle => self.toggle(sent),
        }
    }
}

/// The command that announces `state` when it comes back on the command
/// topic.
pub open spec fn command_for(state: SwitchState) -> SwitchCommand {
    match state {
        SwitchState::On => SwitchCommand::On,
        SwitchState::Off => SwitchCommand::Off,
    }
}

/// A state payload that comes back as a command asks for that very state:
/// `ON` switches on, `OFF` switches off.
pub proof fn law_state_payload_is_command(state: SwitchState)
    ensures
        command_of_payload(state_payload(state)) == Some(command_for(state)),
{
    reveal_strlit("ON");
    reveal_strlit("OFF");
    assert("ON"@ != "OFF"@) by {
        assert("ON"@.len() != "OFF"@.len());
    }
}

/// The state that a request's message announces is the state that the
/// switch takes once that message went out, and every listener is ordered
/// into it.
pub proof fn law_announced_state_is_taken(
    before: Switch,
    request: SwitchCommand,
    msg: PublishRequest,
    after: Switch,
    r: Result<Vec<ListenerCommand>, PublishError>,
)
    requires
        before.message_for(request, msg),
        before.completed_by(after, request, Ok(()), r),
    ensures
        msg.payload@ == state_payload(state_of(after@.is_on)),
        msg.topic@ == after@.config.state_topic(),
        r matches Ok(cmds) && cmds@ == listener_commands(after@.listeners, state_of(after@.is_on)),
{
}

/// A request whose message could not be published changes nothing, and the
/// error is handed back.
pub proof fn law_failed_publish_changes_nothing(
    before: Switch,
    request: SwitchCommand,
    e: PublishError,
    after: Switch,
    r: Result<Vec<ListenerCommand>, PublishError>,
)
    requires
        before.completed_by(after, request, Err(e), r),
    ensures
        after@ == before@,
        r == Err::<Vec<ListenerCommand>, PublishError>(e),
{
}

/// Turning a switch over twice brings it back to where it was.
pub proof fn law_toggle_twice(
    s1: Switch,
    s2: Switch,
    s3: Switch,
    r1: Result<Vec<ListenerCommand>, PublishError>,
    r2: Result<Vec<ListenerCommand>, PublishError>,
)
    requires
        s1.completed_by(s2, SwitchCommand::Toggle, Ok(()), r1),
        s2.completed_by(s3, SwitchCommand::Toggle, Ok(()), r2),
    ensures
        s3@ == s1@,
{
}

/// Switching on a switch that is on, or off one that is off, leaves it as it
/// is, but still orders the listeners into its state.
pub proof fn law_switching_is_idempotent(
    before: Switch,
    request: SwitchCommand,
    after: Switch,
    r: Result<Vec<ListenerCommand>, PublishError>,
)
    requires
        request != SwitchCommand::Toggle,
        command_target(before@.is_on, request) == state_of(before@.is_on),
        before.completed_by(after, request, Ok(()), r),
    ensures
        after@ == before@,
        r matches Ok(cmds) && cmds@ == listener_commands(before@.listeners, state_of(before@.is_on)),
{
}

/// A switch whose unique id holds no slash, once registered with a device,
/// receives the messages on its command topic: the topic's third level is
/// its unique id, that id finds it among the components, and it turns the
/// payload into its command.
pub proof fn law_switch_receives_its_commands(cs: Seq<Switch>, s: Switch, payload: Seq<char>)
    requires
        ids_distinct(cs),
        s@.config.platform == "switch"@,
        !s@.config.unique_id.contains('/'),
    ensures
        topic_level(s@.command_topic(), 2) == Some(s.spec_unique_id()),
        component_index(registered(cs, s), s.spec_unique_id()) matches Some(i) && registered(cs, s)[i]
            == s && registered(cs, s)[i].spec_request(payload) == command_of_payload(payload),
{
    reveal_strlit("switch");
    assert(!"switch"@.contains('/')) by {
        assert("switch"@ =~= seq!['s', 'w', 'i', 't', 'c', 'h']);
    }
    lemma_ha_topic_unique_id_level("switch"@, s@.config.unique_id, "set"@);
    law_register_then_find(cs, s);
}

/// Completing a request is the event `Completed(request, published)` of the
/// switch's model.
pub proof fn law_completion_is_event(
    before: Switch,
    request: SwitchCommand,
    sent: Result<(), PublishError>,
    after: Switch,
    r: Result<Vec<ListenerCommand>, PublishError>,
)
    requires
        before.completed_by(after, request, sent, r),
    ensures
        after@ == switch_step(before@, SwitchEvent::Completed(request, sent is Ok)),
{
}

/// Whatever happens to a switch, its MQTT identity and its extra settings
/// stay, and with them its topics and its discovery payload: the payload
/// depends neither on whether it is on nor on its listeners.
pub proof fn law_identity_is_kept(v: SwitchView, events: Seq<SwitchEvent>)
    ensures
        switch_run(v, events).config == v.config,
        switch_run(v, events).additional == v.additional,
        switch_run(v, events).config.state_topic() == v.config.state_topic(),
        switch_run(v, events).command_topic() == v.command_topic(),
        switch_discovery_members(switch_run(v, events)) == switch_discovery_members(v),
    decreases events.len(),
{
    if events.len() > 0 {
        law_identity_is_kept(v, events.drop_last());
    }
}

/// Whether a switch is on is what the last published change set it to; a
/// failed publish and a registration change nothing.
pub proof fn law_is_on_is_last_set(v: SwitchView, events: Seq<SwitchEvent>)
    ensures
        switch_run(v, events).is_on == last_set_state(v.is_on, events),
    decreases events.len(),
{
    if events.len() > 0 {
        law_is_on_is_last_set(v, events.drop_last());
    }
}

/// A switch made with `Switch::new(unique_id, ..)` keeps, whatever happens to
/// it, the unique id, the state topic `homeassistant/switch/<unique_id>/state`
/// and the command topic `homeassistant/switch/<unique_id>/set`, which differ;
/// it is on exactly when the last published change set it on.
pub proof fn law_new_switch_over_time(
    unique_id: Seq<char>,
    name: Seq<char>,
    additional: Seq<(Seq<char>, Seq<char>)>,
    events: Seq<SwitchEvent>,
)
    ensures
        ({
            let v = SwitchView {
                config: MqttConfigView { unique_id: unique_id, name: name, platform: "switch"@ },
                additional: additional,
                is_on: false,
                listeners: Seq::empty(),
            };
            let w = switch_run(v, events);
            &&& w.config.unique_id == unique_id
            &&& w.config.state_topic() == ha_topic("switch"@, unique_id, "state"@)
            &&& w.command_topic() == ha_topic("switch"@, unique_id, "set"@)
            &&& w.config.state_topic() != w.command_topic()
            &&& w.is_on == last_set_state(false, events)
        }),
{
    let v = SwitchView {
        config: MqttConfigView { unique_id: unique_id, name: name, platform: "switch"@ },
        additional: additional,
        is_on: false,
        listeners: Seq::empty(),
    };
    law_identity_is_kept(v, events);
    law_is_on_is_last_set(v, events);
    reveal_strlit("state");
    reveal_strlit("set");
    assert(ha_topic("switch"@, unique_id, "state"@).len() != ha_topic("switch"@, unique_id, "set"@).len());
}

/// The payloads are the two words `ON` and `OFF`, whole.
pub proof fn law_state_payloads()
    ensures
        state_payload(SwitchState::On) == seq!['O', 'N'],
        state_payload(SwitchState::Off) == seq!['O', 'F', 'F'],
{
    reveal_strlit("ON");
    reveal_strlit("OFF");
    assert("ON"@ =~= seq!['O', 'N']);
    assert("OFF"@ =~= seq!['O', 'F', 'F']);
}

/// Every registered listener gets an order, in the order of registration,
/// each naming the listener and the state.
pub proof fn law_every_listener_is_ordered(listeners: Seq<usize>, state: SwitchState)
    ensures
        listener_commands(listeners, state).len() == listeners.len(),
        forall|i: int|
            0 <= i < listeners.len() ==> #[trigger] listener_commands(listeners, state)[i] == (ListenerCommand {
                listener: listeners[i],
                state: state,
            }),
{
}

/// Each extra setting ends up among the members with the text of its whole
/// value, unless a later setting has the same key; a member whose key no
/// setting has stays where it was.
pub proof fn law_settings_are_inserted(
    ms: Seq<(Seq<char>, Seq<char>)>,
    settings: Seq<(Seq<char>, Seq<char>)>,
)
    ensures
        insert_settings(ms, settings).len() >= ms.len(),
        forall|i: int|
            0 <= i < settings.len() && (forall|j: int|
                i < j < settings.len() ==> #[trigger] settings[j].0 != settings[i].0) ==> exists|m: int|
                0 <= m < insert_settings(ms, settings).len() && #[trigger] insert_settings(ms, settings)[m]
                    == (settings[i].0, json_string_text(#[trigger] settings[i].1)),
        forall|m: int|
            0 <= m < ms.len() && (forall|j: int|
                0 <= j < settings.len() ==> #[trigger] settings[j].0 != ms[m].0) ==> #[trigger] insert_settings(
                ms,
                settings,
            )[m] == ms[m],
    decreases settings.len(),
{
    if settings.len() > 0 {
        let prev = settings.drop_last();
        law_settings_are_inserted(ms, prev);
        let r0 = insert_settings(ms, prev);
        let last = settings.last();
        lemma_member_insert(r0, last.0, json_string_text(last.1));
        let r = insert_settings(ms, settings);
        assert forall|i: int|
            0 <= i < settings.len() && (forall|j: int|
                i < j < settings.len() ==> #[trigger] settings[j].0 != settings[i].0) implies exists|m: int|
            0 <= m < r.len() && #[trigger] r[m] == (settings[i].0, json_string_text(
                #[trigger] settings[i].1,
            )) by {
            if i < settings.len() - 1 {
                assert(prev[i] == settings[i]);
                assert forall|j: int| i < j < prev.len() implies #[trigger] prev[j].0 != prev[i].0 by {
                    assert(prev[j] == settings[j]);
                }
                assert(settings[settings.len() - 1].0 != settings[i].0);
                let m = choose|m: int|
                    0 <= m < r0.len() && #[trigger] r0[m] == (prev[i].0, json_string_text(prev[i].1));
                assert(r[m] == r0[m]);
            }
        }
        assert forall|m: int|
            0 <= m < ms.len() && (forall|j: int|
                0 <= j < settings.len() ==> #[trigger] settings[j].0 != ms[m].0) implies #[trigger] r[m]
            == ms[m] by {
            assert forall|j: int| 0 <= j < prev.len() implies #[trigger] prev[j].0 != ms[m].0 by {
                assert(prev[j] == settings[j]);
            }
            assert(settings[settings.len() - 1].0 != ms[m].0);
        }
    }
}

/// A switch's discovery members hold each extra setting with its whole
/// value, and each of its own fields, whole, where no setting overrides it.
pub proof fn law_switch_discovery_members(v: SwitchView)
    requires
        setting_keys_distinct(v.additional),
    ensures
        forall|i: int|
            0 <= i < v.additional.len() ==> exists|m: int|
                0 <= m < switch_discovery_members(v).len() && #[trigger] switch_discovery_members(v)[m]
                    == (v.additional[i].0, json_string_text(#[trigger] v.additional[i].1)),
        forall|m: int|
            0 <= m < 5 && (forall|j: int|
                0 <= j < v.additional.len() ==> #[trigger] v.additional[j].0
                    != switch_base_members(v)[m].0) ==> #[trigger] switch_discovery_members(v)[m]
                == switch_base_members(v)[m],
        switch_base_members(v)[0] == ("platform"@, json_string_text(v.config.platform)),
        switch_base_members(v)[1] == ("name"@, json_string_text(v.config.name)),
        switch_base_members(v)[2] == ("unique_id"@, json_string_text(v.config.unique_id)),
        switch_base_members(v)[3] == ("state_topic"@, json_string_text(v.config.state_topic())),
        switch_base_members(v)[4] == ("command_topic"@, json_string_text(v.command_topic())),
{
    law_settings_are_inserted(switch_base_members(v), v.additional);
    let r = switch_discovery_members(v);
    let a = v.additional;
    assert forall|i: int| 0 <= i < a.len() implies exists|m: int|
        0 <= m < r.len() && #[trigger] r[m] == (a[i].0, json_string_text(#[trigger] a[i].1)) by {
        assert forall|j: int| i < j < a.len() implies #[trigger] a[j].0 != a[i].0 by {
            assert(a[j].0 != a[i].0);
        }
    }
}

/// A switch's command topic holds its platform and unique id whole:
/// `homeassistant/<platform>/<unique_id>/set`.
pub proof fn law_command_topic_parts(v: SwitchView)
    ensures
        v.command_topic() == seq![
            'h', 'o', 'm', 'e', 'a', 's', 's', 'i', 's', 't', 'a', 'n', 't', '/'
        ] + v.config.platform + seq!['/'] + v.config.unique_id + seq!['/', 's', 'e', 't'],
{
    reveal_strlit("set");
    reveal_strlit("homeassistant/");
    reveal_strlit("/");
    assert(v.command_topic() =~= seq![
        'h', 'o', 'm', 'e', 'a', 's', 's', 'i', 's', 't', 'a', 'n', 't', '/'
    ] + v.config.platform + seq!['/'] + v.config.unique_id + seq!['/', 's', 'e', 't']);
}

/// A payload on the command topic switches on exactly when it is `ON`, off
/// exactly when it is `OFF`, and asks nothing otherwise.
pub proof fn law_command_payloads(payload: Seq<char>)
    ensures
        command_of_payload(payload) == Some(SwitchCommand::On) <==> payload == seq!['O', 'N'],
        command_of_payload(payload) == Some(SwitchCommand::Off) <==> payload == seq!['O', 'F', 'F'],
        command_of_payload(payload) is None <==> payload != seq!['O', 'N'] && payload != seq![
            'O',
            'F',
            'F',
        ],
        command_of_payload(payload) != Some(SwitchCommand::Toggle),
{
    reveal_strlit("ON");
    reveal_strlit("OFF");
    assert("ON"@ =~= seq!['O', 'N']);
    assert("OFF"@ =~= seq!['O', 'F', 'F']);
}

/// The listener that an event registers, if any.
pub open spec fn registered_listener(e: SwitchEvent) -> Option<usize> {
    match e {
        SwitchEvent::Register(l) => Some(l),
        _ => None,
    }
}

/// The listeners of a switch are those it had, followed by every listener
/// registered since, in order; none is lost.
pub proof fn law_listeners_are_kept(v: SwitchView, events: Seq<SwitchEvent>)
    ensures
        switch_run(v, events).listeners == v.listeners + events.filter_map(
            |e: SwitchEvent| registered_listener(e),
        ),
    decreases events.len(),
{
    let f = |e: SwitchEvent| registered_listener(e);
    if events.len() > 0 {
        law_listeners_are_kept(v, events.drop_last());
        let prev = events.drop_last().filter_map(f);
        match events.last() {
            SwitchEvent::Register(l) => {
                assert(events.filter_map(f) == prev + seq![l]);
                assert(v.listeners + (prev + seq![l]) =~= (v.listeners + prev).push(l));
            },
            _ => {
                assert(events.filter_map(f) == prev);
            },
        }
    } else {
        assert(events.filter_map(f) =~= Seq::<usize>::empty());
        assert(v.listeners + Seq::<usize>::empty() =~= v.listeners);
    }
}

} // verus!
