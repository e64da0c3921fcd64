use vstd::prelude::*;

verus! {

/// An IPv4 setting as given to the builder: the address, the prefix length of
/// the netmask, and the optional point-to-point destination, each as the
/// outcome of converting what the caller passed.
pub type Ipv4Setting<E> = (Result<u32, E>, Result<u8, E>, Option<Result<u32, E>>);

/// An IPv6 setting as given to the builder: the address and the prefix length,
/// each as the outcome of converting what the caller passed.
pub type Ipv6Setting<E> = (Result<u128, E>, Result<u8, E>);

/// The optional text of a string setting.
pub open spec fn opt_text(s: Option<String>) -> Option<Seq<char>> {
    match s {
        Some(t) => Some(t@),
        None => None,
    }
}

/// What a builder holds, as plain values.
pub struct BuilderState<E> {
    pub dev_name: Option<Seq<char>>,
    pub enabled: Option<bool>,
    pub mtu: Option<u16>,
    pub ipv4: Option<Ipv4Setting<E>>,
    pub ipv6: Option<Seq<Ipv6Setting<E>>>,
    pub packet_information: Option<bool>,
    pub associate_route: Option<bool>,
    pub offload: Option<bool>,
    pub description: Option<Seq<char>>,
    pub device_guid: Option<u128>,
    pub wintun_log: Option<bool>,
    pub wintun_file: Option<Seq<char>>,
    pub ring_capacity: Option<u32>,
    pub delete_driver: Option<bool>,
}

/// A builder for configuring a TUN interface.
pub struct DeviceBuilder<E> {
    dev_name: Option<String>,
    enabled: Option<bool>,
    mtu: Option<u16>,
    ipv4: Option<Ipv4Setting<E>>,
    ipv6: Option<Vec<Ipv6Setting<E>>>,
    packet_information: Option<bool>,
    associate_route: Option<bool>,
    offload: Option<bool>,
    description: Option<String>,
    device_guid: Option<u128>,
    wintun_log: Option<bool>,
    wintun_file: Option<String>,
    ring_capacity: Option<u32>,
    delete_driver: Option<bool>,
}

impl<E> View for DeviceBuilder<E> {
    type V = BuilderState<E>;

    closed spec fn view(&self) -> BuilderState<E> {
        BuilderState::<E> {
            dev_name: opt_text(self.dev_name),
            enabled: self.enabled,
            mtu: self.mtu,
            ipv4: self.ipv4,
            ipv6: match self.ipv6 {
                Some(v) => Some(v@),
                None => None,
            },
            packet_information: self.packet_information,
            associate_route: self.associate_route,
            offload: self.offload,
            description: opt_text(self.description),
            device_guid: self.device_guid,
            wintun_log: self.wintun_log,
            wintun_file: opt_text(self.wintun_file),
            ring_capacity: self.ring_capacity,
            delete_driver: self.delete_driver,
        }
    }
}

/// The state of a builder that has been given nothing.
pub open spec fn empty_state<E>() -> BuilderState<E> {
    BuilderState::<E> {
        dev_name: None,
        enabled: None,
        mtu: None,
        ipv4: None,
        ipv6: None,
        packet_information: None,
        associate_route: None,
        offload: None,
        description: None,
        device_guid: None,
        wintun_log: None,
        wintun_file: None,
        ring_capacity: None,
        delete_driver: None,
    }
}

/// The IPv6 list after one more setting: a new list when there was none.
pub open spec fn ipv6_appended<E>(list: Option<Seq<Ipv6Setting<E>>>, entry: Ipv6Setting<E>) -> Option<
    Seq<Ipv6Setting<E>>,
> {
    match list {
        Some(s) => Some(s.push(entry)),
        None => Some(seq![entry]),
    }
}

impl<E> DeviceBuilder<E> {
    /// Creates a builder with sensible defaults: the device is enabled and
    /// nothing else is set.
    pub fn new() -> (r: Self)
        ensures
            r@ == (BuilderState::<E> { enabled: Some(true), ..empty_state::<E>() }),
    {
        DeviceBuilder {
            dev_name: None,
            enabled: Some(true),
            mtu: None,
            ipv4: None,
            ipv6: None,
            packet_information: None,
            associate_route: None,
            offload: None,
            description: None,
            device_guid: None,
            wintun_log: None,
            wintun_file: None,
            ring_capacity: None,
            delete_driver: None,
        }
    }

    /// Sets the device name.
    pub fn name(self, dev_name: String) -> (r: Self)
        ensures
            r@ == (BuilderState::<E> { dev_name: Some(dev_name@), ..self@ }),
    {
        DeviceBuilder { dev_name: Some(dev_name), ..self }
    }

    /// Sets the device MTU.
    pub fn mtu(self, mtu: u16) -> (r: Self)
        ensures
            r@ == (BuilderState::<E> { mtu: Some(mtu), ..self@ }),
    {
        DeviceBuilder { mtu: Some(mtu), ..self }
    }

    /// Configures the IPv4 address, the prefix length of its netmask and an
    /// optional destination for point-to-point links; a later call replaces
    /// an earlier one.
    pub fn ipv4(
        self,
        address: Result<u32, E>,
        prefix: Result<u8, E>,
        destination: Option<Result<u32, E>>,
    ) -> (r: Self)
        ensures
            r@ == (BuilderState::<E> { ipv4: Some((address, prefix, destination)), ..self@ }),
    {
        DeviceBuilder { ipv4: Some((address, prefix, destination)), ..self }
    }

    /// Adds one IPv6 address with the prefix length of its netmask; the
    /// addresses are kept in the order in which they were added.
    pub fn ipv6(self, address: Result<u128, E>, prefix: Result<u8, E>) -> (r:
        Self)
        ensures
            r@ == (BuilderState::<E> { ipv6: ipv6_appended(self@.ipv6, (address, prefix)), ..self@ }),
    {
        let mut this = self;
        let entry: Ipv6Setting<E> = (address, prefix);
        match this.ipv6 {
            Some(mut list) => {
                list.push(entry);
                DeviceBuilder { ipv6: Some(list), ..this }
            },
            None => {
                let mut list: Vec<Ipv6Setting<E>> = Vec::new();
                list.push(entry);
                proof {
                    assert(list@ =~= seq![entry]);
                }
                DeviceBuilder { ipv6: Some(list), ..this }
            },
        }
    }

    /// Enables or disables the interface upon creation.
    pub fn enable(self, enable: bool) -> (r: Self)
        ensures
            r@ == (BuilderState::<E> { enabled: Some(enable), ..self@ }),
    {
        DeviceBuilder { enabled: Some(enable), ..self }
    }

    /// Enables or disables packet information headers on Unix platforms.
    pub fn packet_information(self, packet_information: bool) -> (r: Self)
        ensures
            r@ == (BuilderState::<E> { packet_information: Some(packet_information), ..self@ }),
    {
        DeviceBuilder { packet_information: Some(packet_information), ..self }
    }

    /// Enables TUN offloads (TSO/GSO/GRO) on Linux.
    pub fn offload(self, offload: bool) -> (r: Self)
        ensures
            r@ == (BuilderState::<E> { offload: Some(offload), ..self@ }),
    {
        DeviceBuilder { offload: Some(offload), ..self }
    }
}


/// The configuration with which a platform device is created.
pub struct DeviceConfig {
    pub dev_name: Option<String>,
    pub packet_information: Option<bool>,
    pub associate_route: Option<bool>,
    pub offload: Option<bool>,
    pub description: Option<String>,
    pub device_guid: Option<u128>,
    pub wintun_log: Option<bool>,
    pub wintun_file: Option<String>,
    pub ring_capacity: Option<u32>,
    pub delete_driver: Option<bool>,
}

/// The wintun driver file used when none is configured.
pub open spec fn default_wintun_file() -> Seq<char> {
    "wintun.dll"@
}

/// The ring capacity used when none is configured.
pub open spec fn default_ring_capacity() -> u32 {
    0x20_0000
}

impl DeviceConfig {
    /// Whether the utun device drops the packet-information header: it does
    /// unless packet information was asked for.
    pub fn ignore_packet_info(&self) -> (r: bool)
        ensures
            r == !(self.packet_information == Some(true)),
    {
        match self.packet_information {
            Some(true) => false,
            _ => true,
        }
    }

    /// Whether the wintun driver logs: off unless asked for.
    pub fn wintun_log_enabled(&self) -> (r: bool)
        ensures
            r == (self.wintun_log == Some(true)),
    {
        match self.wintun_log {
            Some(v) => v,
            None => false,
        }
    }

    /// The wintun driver file to load: the configured one, else `wintun.dll`.
    pub fn wintun_file_name(&self) -> (r: &str)
        ensures
            r@ == (match self.wintun_file {
                Some(f) => f@,
                None => default_wintun_file(),
            }),
    {
        match &self.wintun_file {
            Some(f) => f.as_str(),
            None => "wintun.dll",
        }
    }

    /// The ring capacity of the wintun session: the configured one, else 2 MiB.
    pub fn ring_capacity_or_default(&self) -> (r: u32)
        ensures
            r == (match self.ring_capacity {
                Some(c) => c,
                None => default_ring_capacity(),
            }),
    {
        match self.ring_capacity {
            Some(c) => c,
            None => 0x20_0000,
        }
    }

    /// Whether the driver is deleted when the device goes: not unless asked for.
    pub fn delete_driver_enabled(&self) -> (r: bool)
        ensures
            r == (self.delete_driver == Some(true)),
    {
        match self.delete_driver {
            Some(v) => v,
            None => false,
        }
    }
}

impl<E> DeviceBuilder<E> {
    /// Takes out of the builder the settings with which the platform device is
    /// created; the associated-route flag and the device GUID are copied and
    /// stay in the builder, the other settings are moved out.
    pub fn build_config(&mut self) -> (r: DeviceConfig)
        ensures
            opt_text(r.dev_name) == old(self)@.dev_name,
            r.packet_information == old(self)@.packet_information,
            r.associate_route == old(self)@.associate_route,
            r.offload == old(self)@.offload,
            opt_text(r.description) == old(self)@.description,
            r.device_guid == old(self)@.device_guid,
            r.wintun_log == old(self)@.wintun_log,
            opt_text(r.wintun_file) == old(self)@.wintun_file,
            r.ring_capacity == old(self)@.ring_capacity,
            r.delete_driver == old(self)@.delete_driver,
            final(self)@ == (BuilderState::<E> {
                dev_name: None,
                packet_information: None,
                offload: None,
                description: None,
                wintun_log: None,
                wintun_file: None,
                ring_capacity: None,
                delete_driver: None,
                ..old(self)@
            }),
    {
        DeviceConfig {
            dev_name: self.dev_name.take(),
            packet_information: self.packet_information.take(),
            associate_route: self.associate_route,
            offload: self.offload.take(),
            description: self.description.take(),
            device_guid: self.device_guid,
            wintun_log: self.wintun_log.take(),
            wintun_file: self.wintun_file.take(),
            ring_capacity: self.ring_capacity.take(),
            delete_driver: self.delete_driver.take(),
        }
    }
}


/// One operation that configures a created device.
#[allow(inconsistent_fields)]
#[derive(Clone, Copy, Debug, PartialEq, Eq)]
pub enum ConfigStep {
    /// Set the MTU.
    SetMtu(u16),
    /// Set the IPv4 address, the prefix length and the optional destination.
    SetNetworkAddress { address: u32, prefix: u8, destination: Option<u32> },
    /// Add an IPv6 address with its prefix length.
    AddAddressV6 { address: u128, prefix: u8 },
    /// Bring the interface up or down.
    Enable(bool),
}

/// The configuration of a created device: the operations to perform in
/// order, and the refused setting, if any, to report once they all succeed.
pub struct ConfigPlan<E> {
    pub steps: Vec<ConfigStep>,
    pub failure: Option<E>,
}

/// The operation for an IPv4 setting, or the first refusal among its parts:
/// the prefix length is looked at first, then the address, then the
/// destination.
pub open spec fn ipv4_item<E>(s: Ipv4Setting<E>) -> Result<ConfigStep, E> {
    match s.1 {
        Err(e) => Err(e),
        Ok(p) => match s.0 {
            Err(e) => Err(e),
            Ok(a) => match s.2 {
                Some(Err(e)) => Err(e),
                Some(Ok(d)) => Ok(ConfigStep::SetNetworkAddress { address: a, prefix: p, destination: Some(d) }),
                None => Ok(ConfigStep::SetNetworkAddress { address: a, prefix: p, destination: None }),
            },
        },
    }
}

/// The operation for an IPv6 setting, or the first refusal among its parts:
/// the prefix length is looked at first, then the address.
pub open spec fn ipv6_item<E>(s: Ipv6Setting<E>) -> Result<ConfigStep, E> {
    match s.1 {
        Err(e) => Err(e),
        Ok(p) => match s.0 {
            Err(e) => Err(e),
            Ok(a) => Ok(ConfigStep::AddAddressV6 { address: a, prefix: p }),
        },
    }
}

/// Everything a builder asks of a created device, in the order in which it is
/// done: the MTU, the IPv4 address, each IPv6 address, then the up/down state.
pub open spec fn config_items<E>(b: BuilderState<E>) -> Seq<Result<ConfigStep, E>> {
    let mtu = match b.mtu {
        Some(m) => seq![Ok(ConfigStep::SetMtu(m))],
        None => Seq::empty(),
    };
    let v4 = match b.ipv4 {
        Some(s) => seq![ipv4_item(s)],
        None => Seq::empty(),
    };
    let v6 = match b.ipv6 {
        Some(l) => l.map_values(|s: Ipv6Setting<E>| ipv6_item(s)),
        None => Seq::empty(),
    };
    let up = match b.enabled {
        Some(e) => seq![Ok(ConfigStep::Enable(e))],
        None => Seq::empty(),
    };
    mtu + v4 + v6 + up
}

/// A plan after one more item: an operation is appended, and the first
/// refusal ends the plan.
pub open spec fn record_item<E>(
    acc: (Seq<ConfigStep>, Option<E>),
    item: Result<ConfigStep, E>,
) -> (Seq<ConfigStep>, Option<E>) {
    if acc.1 is Some {
        acc
    } else {
        match item {
            Ok(st) => (acc.0.push(st), None),
            Err(e) => (acc.0, Some(e)),
        }
    }
}

/// The operations before the first refusal, and that refusal.
pub open spec fn steps_until_error<E>(items: Seq<Result<ConfigStep, E>>) -> (
    Seq<ConfigStep>,
    Option<E>,
)
    decreases items.len(),
{
    if items.len() == 0 {
        (Seq::empty(), None)
    } else {
        record_item(steps_until_error(items.drop_last()), items.last())
    }
}

/// How a builder configures the device it created.
pub open spec fn config_plan_spec<E>(b: BuilderState<E>) -> (Seq<ConfigStep>, Option<E>) {
    steps_until_error(config_items(b))
}

proof fn lemma_steps_push<E>(items: Seq<Result<ConfigStep, E>>, item: Result<ConfigStep, E>)
    ensures
        steps_until_error(items.push(item)) == record_item(steps_until_error(items), item),
{
    assert(items.push(item).drop_last() =~= items);
}

fn ipv4_outcome<E>(s: Ipv4Setting<E>) -> (r: Result<ConfigStep, E>)
    ensures
        r == ipv4_item(s),
{
    let (address, prefix, destination) = s;
    let prefix = match prefix {
        Ok(p) => p,
        Err(e) => return Err(e),
    };
    let address = match address {
        Ok(a) => a,
        Err(e) => return Err(e),
    };
    let destination = match destination {
        Some(Err(e)) => return Err(e),
        Some(Ok(d)) => Some(d),
        None => None,
    };
    Ok(ConfigStep::SetNetworkAddress { address, prefix, destination })
}

fn ipv6_outcome<E>(s: Ipv6Setting<E>) -> (r: Result<ConfigStep, E>)
    ensures
        r == ipv6_item(s),
{
    let (address, prefix) = s;
    let prefix = match prefix {
        Ok(p) => p,
        Err(e) => return Err(e),
    };
    let address = match address {
        Ok(a) => a,
        Err(e) => return Err(e),
    };
    Ok(ConfigStep::AddAddressV6 { address, prefix })
}

impl<E> ConfigPlan<E> {
    fn record(&mut self, item: Result<ConfigStep, E>)
        ensures
            (final(self).steps@, final(self).failure) == record_item(
                (old(self).steps@, old(self).failure),
                item,
            ),
    {
        if self.failure.is_none() {
            match item {
                Ok(st) => self.steps.push(st),
                Err(e) => self.failure = Some(e),
            }
        }
    }
}

impl<E> DeviceBuilder<E> {
    /// The configuration of the device that this builder creates: what is
    /// set, in order, up to the first setting that was refused.
    pub fn config(self) -> (r: ConfigPlan<E>)
        ensures
            (r.steps@, r.failure) == config_plan_spec(self@),
    {
        let ghost b = self@;
        let ghost mut items: Seq<Result<ConfigStep, E>> = Seq::empty();
        let mut plan = ConfigPlan::<E> { steps: Vec::new(), failure: None };
        proof {
            assert(plan.steps@ =~= steps_until_error(items).0);
        }
        if let Some(m) = self.mtu {
            let item: Result<ConfigStep, E> = Ok(ConfigStep::SetMtu(m));
            let ghost g = item;
            plan.record(item);
            proof {
                lemma_steps_push(items, g);
                items = items.push(g);
            }
        }
        if let Some(s) = self.ipv4 {
            let item = ipv4_outcome(s);
            let ghost g = item;
            plan.record(item);
            proof {
                lemma_steps_push(items, g);
                items = items.push(g);
            }
        }
        let ghost before_v6 = items;
        if let Some(list) = self.ipv6 {
            let ghost all = list@;
            let mut rest = list;
            let ghost mut done: int = 0;
            while rest.len() > 0
                invariant
                    b.ipv6 == Some(all),
                    0 <= done <= all.len(),
                    rest@ == all.skip(done),
                    items =~= before_v6 + all.take(done).map_values(
                        |s: Ipv6Setting<E>| ipv6_item(s),
                    ),
                    plan.steps@ == steps_until_error(items).0,
                    plan.failure == steps_until_error(items).1,
                decreases rest@.len(),
            {
                let entry = rest.remove(0);
                proof {
                    assert(entry == all[done]);
                }
                let item = ipv6_outcome(entry);
                let ghost g = item;
                plan.record(item);
                proof {
                    lemma_steps_push(items, g);
                    assert(all.take(done + 1) =~= all.take(done).push(all[done]));
                    assert(rest@ =~= all.skip(done + 1));
                    items = items.push(g);
                    done = done + 1;
                }
            }
            proof {
                assert(done == all.len());
                assert(all.take(done) =~= all);
            }
        }
        if let Some(e) = self.enabled {
            let item: Result<ConfigStep, E> = Ok(ConfigStep::Enable(e));
            let ghost g = item;
            plan.record(item);
            proof {
                lemma_steps_push(items, g);
                items = items.push(g);
            }
        }
        proof {
            assert(items =~= config_items(b));
        }
        plan
    }
}


/// The operation an accepted item stands for.
pub open spec fn item_step<E>(item: Result<ConfigStep, E>) -> ConfigStep {
    match item {
        Ok(st) => st,
        Err(_) => ConfigStep::Enable(false),
    }
}

/// When every setting is accepted, the device is configured with all of them,
/// in order, and nothing is reported.
pub proof fn law_plan_without_refusal<E>(items: Seq<Result<ConfigStep, E>>)
    requires
        forall|i: int| 0 <= i < items.len() ==> #[trigger] items[i] is Ok,
    ensures
        steps_until_error(items).0 == items.map_values(|it: Result<ConfigStep, E>| item_step(it)),
        steps_until_error(items).1 is None,
    decreases items.len(),
{
    if items.len() > 0 {
        let rest = items.drop_last();
        assert forall|i: int| 0 <= i < rest.len() implies #[trigger] rest[i] is Ok by {
            assert(rest[i] == items[i]);
        }
        law_plan_without_refusal(rest);
        assert(items.map_values(|it: Result<ConfigStep, E>| item_step(it)) =~= rest.map_values(
            |it: Result<ConfigStep, E>| item_step(it),
        ).push(item_step(items.last())));
    }
}

/// When a setting is refused, the device is configured with the settings
/// before it, in order, and then that refusal is reported; nothing after it
/// is done.
pub proof fn law_plan_stops_at_first_refusal<E>(items: Seq<Result<ConfigStep, E>>, k: int)
    requires
        0 <= k < items.len(),
        items[k] is Err,
        forall|i: int| 0 <= i < k ==> #[trigger] items[i] is Ok,
    ensures
        steps_until_error(items).0 == items.take(k).map_values(|it: Result<ConfigStep, E>| item_step(it)),
        steps_until_error(items).1 == Some(items[k]->Err_0),
    decreases items.len(),
{
    if k == items.len() - 1 {
        let rest = items.drop_last();
        assert forall|i: int| 0 <= i < rest.len() implies #[trigger] rest[i] is Ok by {
            assert(rest[i] == items[i]);
        }
        law_plan_without_refusal(rest);
        assert(items.take(k) =~= rest);
    } else {
        let rest = items.drop_last();
        assert(rest[k] == items[k]);
        assert forall|i: int| 0 <= i < k implies #[trigger] rest[i] is Ok by {
            assert(rest[i] == items[i]);
        }
        law_plan_stops_at_first_refusal(rest, k);
        assert(rest.take(k) =~= items.take(k));
    }
}


/// How the IPv4 setting of a builder ends its configuration. A refused
/// prefix length is reported; else a refused address; else a refused
/// destination. In each case nothing after the MTU is done. When all its
/// parts are accepted, the address is set right after the MTU.
pub proof fn law_config_ipv4<E>(b: BuilderState<E>)
    requires
        b.ipv4 is Some,
    ensures
        ({
            let (address, prefix, destination) = b.ipv4->0;
            let plan = config_plan_spec(b);
            let before = match b.mtu {
                Some(m) => seq![ConfigStep::SetMtu(m)],
                None => Seq::<ConfigStep>::empty(),
            };
            &&& prefix is Err ==> plan.1 == Some(prefix->Err_0) && plan.0 == before
            &&& (prefix is Ok && address is Err) ==> plan.1 == Some(address->Err_0) && plan.0 == before
            &&& (prefix is Ok && address is Ok && destination is Some && destination->0 is Err) ==> plan.1
                == Some(destination->0->Err_0) && plan.0 == before
            &&& (prefix is Ok && address is Ok && !(destination is Some && destination->0 is Err))
                ==> plan.0.len() > before.len() && plan.0[before.len() as int] == ConfigStep::SetNetworkAddress {
                address: address->Ok_0,
                prefix: prefix->Ok_0,
                destination: match destination {
                    Some(Ok(d)) => Some(d),
                    _ => None,
                },
            }
        }),
{
    let items = config_items(b);
    let k: int = if b.mtu is Some { 1 } else { 0 };
    let (address, prefix, destination) = b.ipv4->0;
    assert(items[k] == ipv4_item(b.ipv4->0));
    assert forall|i: int| 0 <= i < k implies #[trigger] items[i] is Ok by {}
    if items[k] is Err {
        law_plan_stops_at_first_refusal(items, k);
        assert(items.take(k).map_values(|it: Result<ConfigStep, E>| item_step(it)) =~= (match b.mtu {
            Some(m) => seq![ConfigStep::SetMtu(m)],
            None => Seq::<ConfigStep>::empty(),
        }));
    } else {
        let head = items.take(k + 1);
        assert forall|i: int| 0 <= i < head.len() implies #[trigger] head[i] is Ok by {
            assert(head[i] == items[i]);
        }
        law_plan_without_refusal(head);
        lemma_plan_prefix(items, k + 1);
        let hs = steps_until_error(head).0;
        assert(hs[k] == item_step(head[k]));
        assert(head[k] == items[k]);
        assert(steps_until_error(items).0[k] == hs[k]);
    }
}

/// The plan of a longer list keeps the operations of an unrefused beginning.
proof fn lemma_plan_prefix<E>(items: Seq<Result<ConfigStep, E>>, n: int)
    requires
        0 <= n <= items.len(),
        steps_until_error(items.take(n)).1 is None,
    ensures
        steps_until_error(items).0.len() >= steps_until_error(items.take(n)).0.len(),
        forall|i: int| 0 <= i < steps_until_error(items.take(n)).0.len() ==> steps_until_error(items).0[i]
            == #[trigger] steps_until_error(items.take(n)).0[i],
    decreases items.len() - n,
{
    if n < items.len() {
        assert(items.take(n + 1).drop_last() =~= items.take(n));
        assert(items.take(n + 1).last() == items[n]);
        let cur = steps_until_error(items.take(n));
        let next = steps_until_error(items.take(n + 1));
        assert(next == record_item(cur, items[n]));
        assert forall|i: int| 0 <= i < cur.0.len() implies next.0[i] == #[trigger] cur.0[i] by {}
        if next.1 is None {
            lemma_plan_prefix(items, n + 1);
            assert forall|i: int| 0 <= i < cur.0.len() implies steps_until_error(items).0[i]
                == #[trigger] cur.0[i] by {
                assert(steps_until_error(items).0[i] == next.0[i]);
            }
        } else {
            lemma_plan_stays(items, n + 1);
        }
    } else {
        assert(items.take(n) =~= items);
    }
}

/// Once refused, the plan of a beginning is the plan of the whole list.
proof fn lemma_plan_stays<E>(items: Seq<Result<ConfigStep, E>>, n: int)
    requires
        0 <= n <= items.len(),
        steps_until_error(items.take(n)).1 is Some,
    ensures
        steps_until_error(items) == steps_until_error(items.take(n)),
    decreases items.len() - n,
{
    if n < items.len() {
        assert(items.take(n + 1).drop_last() =~= items.take(n));
        lemma_plan_stays(items, n + 1);
    } else {
        assert(items.take(n) =~= items);
    }
}

/// How the IPv6 settings of a builder end its configuration, when the IPv4
/// setting is absent or accepted: the first refused IPv6 setting (its prefix
/// length looked at before its address) is reported, and the addresses before
/// it are added in order.
pub proof fn law_config_ipv6<E>(b: BuilderState<E>, k: int)
    requires
        b.ipv6 is Some,
        0 <= k < b.ipv6->0.len(),
        b.ipv4 matches Some(s) ==> s.0 is Ok && s.1 is Ok && !(s.2 matches Some(Err(_))),
        forall|i: int| 0 <= i < k ==> (#[trigger] b.ipv6->0[i]).0 is Ok && b.ipv6->0[i].1 is Ok,
        b.ipv6->0[k].0 is Err || b.ipv6->0[k].1 is Err,
    ensures
        ({
            let (address, prefix) = b.ipv6->0[k];
            let plan = config_plan_spec(b);
            let base = (if b.mtu is Some { 1int } else { 0 }) + (if b.ipv4 is Some { 1int } else { 0 });
            &&& prefix is Err ==> plan.1 == Some(prefix->Err_0)
            &&& (prefix is Ok && address is Err) ==> plan.1 == Some(address->Err_0)
            &&& plan.0.len() == base + k
            &&& forall|i: int| 0 <= i < k ==> plan.0[base + i] == (ConfigStep::AddAddressV6 {
                address: (#[trigger] b.ipv6->0[i]).0->Ok_0,
                prefix: b.ipv6->0[i].1->Ok_0,
            })
        }),
{
    let items = config_items(b);
    let list = b.ipv6->0;
    let base = (if b.mtu is Some { 1int } else { 0 }) + (if b.ipv4 is Some { 1int } else { 0 });
    assert forall|i: int| 0 <= i < k implies items[base + i] == Ok::<ConfigStep, E>(ConfigStep::AddAddressV6 {
        address: (#[trigger] list[i]).0->Ok_0,
        prefix: list[i].1->Ok_0,
    }) by {
        assert(items[base + i] == ipv6_item(list[i]));
    }
    assert(items[base + k] == ipv6_item(list[k]));
    assert forall|i: int| 0 <= i < base + k implies #[trigger] items[i] is Ok by {
        if i >= base {
            assert(items[i] == ipv6_item(list[i - base]));
            assert(list[i - base].0 is Ok && list[i - base].1 is Ok);
        } else if b.mtu is Some && i == 0 {
        } else {
            assert(items[i] == ipv4_item(b.ipv4->0));
        }
    }
    law_plan_stops_at_first_refusal(items, base + k);
    let steps = items.take(base + k).map_values(|it: Result<ConfigStep, E>| item_step(it));
    assert forall|i: int| 0 <= i < k implies steps[base + i] == (ConfigStep::AddAddressV6 {
        address: (#[trigger] list[i]).0->Ok_0,
        prefix: list[i].1->Ok_0,
    }) by {
        assert(items[base + i] == Ok::<ConfigStep, E>(ConfigStep::AddAddressV6 {
            address: list[i].0->Ok_0,
            prefix: list[i].1->Ok_0,
        }));
    }
}

/// When every setting is accepted, the device gets exactly one operation per
/// setting and nothing is reported: the MTU first, up/down last.
pub proof fn law_config_all_accepted<E>(b: BuilderState<E>)
    requires
        b.ipv4 matches Some(s) ==> s.0 is Ok && s.1 is Ok && !(s.2 matches Some(Err(_))),
        b.ipv6 matches Some(l) ==> forall|i: int| 0 <= i < l.len() ==> (#[trigger] l[i]).0 is Ok && l[i].1 is Ok,
    ensures
        ({
            let plan = config_plan_spec(b);
            let n6 = match b.ipv6 {
                Some(l) => l.len() as int,
                None => 0,
            };
            &&& plan.1 is None
            &&& plan.0.len() == (if b.mtu is Some { 1int } else { 0 }) + (if b.ipv4 is Some { 1int } else { 0 }) + n6 + (if b.enabled is Some { 1int } else { 0 })
            &&& b.mtu matches Some(m) ==> plan.0[0] == ConfigStep::SetMtu(m)
            &&& b.enabled matches Some(e) ==> plan.0[plan.0.len() - 1] == ConfigStep::Enable(e)
        }),
{
    let items = config_items(b);
    assert forall|i: int| 0 <= i < items.len() implies #[trigger] items[i] is Ok by {
        let base = (if b.mtu is Some { 1int } else { 0 }) + (if b.ipv4 is Some { 1int } else { 0 });
        let n6 = match b.ipv6 {
            Some(l) => l.len() as int,
            None => 0,
        };
        if b.mtu is Some && i == 0 {
        } else if i < base {
            assert(items[i] == ipv4_item(b.ipv4->0));
        } else if i < base + n6 {
            let l = b.ipv6->0;
            assert(items[i] == ipv6_item(l[i - base]));
            assert(l[i - base].0 is Ok && l[i - base].1 is Ok);
        } else {
        }
    }
    law_plan_without_refusal(items);
}

} // verus!
