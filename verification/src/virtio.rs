use vstd::prelude::*;

use crate::util::is_power_of_2_or_zero;

verus! {

/// PCI vendor id of VirtIO devices.
pub const VIRTIO_VENDOR_ID: u16 = 0x1AF4;
/// Lowest and highest PCI device id of VirtIO devices.
pub const VIRTIO_DEVICE_ID_FIRST: u16 = 0x1000;
pub const VIRTIO_DEVICE_ID_LAST: u16 = 0x107F;
/// PCI capability id of vendor-specific capabilities.
pub const VIRTIO_VENDOR_SPECIFIC_CAPABILITY_ID: u8 = 0x9;
/// Configuration structure kinds of VirtIO PCI capabilities.
pub const VIRTIO_PCI_CAP_COMMON_CFG: u8 = 1;
pub const VIRTIO_PCI_CAP_NOTIFY_CFG: u8 = 2;
pub const VIRTIO_PCI_CAP_DEVICE_CFG: u8 = 4;

/// Device status bits.
pub const DEVICE_STATUS_ACKNOWLEDGE: u8 = 1;
pub const DEVICE_STATUS_DRIVER: u8 = 2;
pub const DEVICE_STATUS_DRIVER_OK: u8 = 4;
pub const DEVICE_STATUS_FEATURES_OK: u8 = 8;
pub const DEVICE_STATUS_FAILED: u8 = 128;

/// Feature bits.
pub const VIRTIO_NET_F_MAC: u64 = 0x20;
pub const VIRTIO_F_VERSION_1: u64 = 0x1_0000_0000;

/// A VirtIO capability of a PCI device, as read from its configuration
/// space.
#[derive(Clone, Copy, Debug, PartialEq, Eq, Structural)]
pub struct VirtioCap {
    pub id: u8,
    pub cfg_type: u8,
    pub bar: u8,
    pub offset: u32,
    pub length: u32,
    /// Only meaningful for the notification capability.
    pub notify_off_multiplier: u32,
}

/// The kind of VirtIO device being brought up.
#[derive(Clone, Copy, Debug, PartialEq, Eq, Structural)]
pub enum DeviceKind {
    Block,
    Network,
}

/// Why bringing up a device failed without panicking: a capability the
/// driver needs is missing.
#[derive(Clone, Copy, Debug, PartialEq, Eq, Structural)]
pub enum InitError {
    CommonCfgMissing,
    NotifyCfgMissing,
    DeviceCfgMissing,
}

/// A check on the device's answers that failed; the driver stops there.
#[derive(Clone, Copy, Debug, PartialEq, Eq, Structural)]
pub enum InitFailure {
    DeviceFailed,
    Version1Unsupported,
    FeaturesUnsupported,
    FeaturesNotAccepted,
    DriverNotOk,
    BadNotifyMultiplier,
    BadNotifyOffset,
    BadNotifyLength,
    NotifyOutOfRange,
    AddressOverflow,
    UnexpectedEvent,
}

/// Where the bring-up of a device stands.
#[derive(Clone, Copy, Debug, PartialEq, Eq, Structural)]
pub enum InitPhase {
    Start,
    CommonBar,
    Resetting,
    Acknowledging,
    SettingDriver,
    FeaturesLow,
    FeaturesHigh,
    WritingFeatures,
    FeaturesOk,
    NotifyBar,
    CreatingQueues,
    ConfiguringQueues,
    DeviceBar,
    ReadingCapacity,
    DriverOk,
    EnablingBusMaster,
    FillingQueue,
    Ready,
    Stopped,
}

/// What the device answered to the last action.
#[derive(Clone, Copy, Debug)]
pub enum InitEvent {
    /// Nothing yet: the first step.
    Begin,
    /// The CPU address a BAR was mapped at.
    BarMapped(usize),
    /// The device status register.
    StatusRead(u8),
    /// The selected half of the device feature bits.
    FeatureWord(u32),
    /// The notification offset of the last queue created.
    QueueNotifyOffset(u16),
    /// The capacity of a block device, in sectors.
    CapacityRead(u64),
    /// The MAC address of a network device.
    MacRead([u8; 6]),
    /// The action was carried out.
    Done,
}

/// What the driver does next.
#[derive(Clone, Copy, Debug)]
pub enum InitAction {
    /// Map this BAR of the PCI device and report its CPU address.
    MapBar(u8),
    /// Use the common configuration at this address: write 0 to the device
    /// status and report the status read back.
    Reset(usize),
    /// Report the device status.
    ReadStatus,
    /// Or this bit into the device status and report the status read back.
    SetStatus(u8),
    /// Select this half of the device features and report it.
    ReadFeatures(u32),
    /// Write these halves of the driver features.
    WriteFeatures(u32, u32),
    /// Create this many queues, selecting each, and report the notification
    /// offset of the last one.
    CreateQueues(u16),
    /// Give queue `.1` the notification address `.0`, then hand every queue
    /// to the device and enable it.
    ConfigureQueues(usize, u16),
    /// Read the capacity from the device configuration at this address.
    ReadCapacity(usize),
    /// Fill the receive queue and read the MAC address from the device
    /// configuration at this address.
    FillReceiveQueue(usize),
    /// Let the device master the bus.
    EnableBusMaster,
    /// The device is up.
    Finished,
    /// A capability is missing: give up with this error.
    Error(InitError),
    /// A check failed: stop.
    Fail(InitFailure),
}

/// The driver's state between actions.
#[derive(Clone, Copy, Debug)]
pub struct InitState {
    pub phase: InitPhase,
    pub features_low: u32,
    pub notify_bar: usize,
    pub capacity: u64,
    pub mac: [u8; 6],
    /// The status bits the device has confirmed.
    pub confirmed: u8,
}

/// Capability `c` is a VirtIO capability of kind `cfg_type`.
pub open spec fn cap_is(c: VirtioCap, cfg_type: u8) -> bool {
    c.id == VIRTIO_VENDOR_SPECIFIC_CAPABILITY_ID && c.cfg_type == cfg_type
}

/// The first VirtIO capability of kind `cfg_type`.
pub open spec fn first_cap(caps: Seq<VirtioCap>, cfg_type: u8) -> Option<int>
    decreases caps.len(),
{
    if caps.len() == 0 {
        None
    } else if cap_is(caps[0], cfg_type) {
        Some(0)
    } else {
        match first_cap(caps.drop_first(), cfg_type) {
            Some(i) => Some(i + 1),
            None => None,
        }
    }
}

/// The features the driver wants for a kind of device.
pub open spec fn wanted_features(kind: DeviceKind) -> u64 {
    match kind {
        DeviceKind::Block => VIRTIO_F_VERSION_1,
        DeviceKind::Network => VIRTIO_F_VERSION_1 | VIRTIO_NET_F_MAC,
    }
}

/// The number of queues of a kind of device.
pub open spec fn queue_count(kind: DeviceKind) -> u16 {
    match kind {
        DeviceKind::Block => 1,
        DeviceKind::Network => 2,
    }
}

/// The queue that is notified through the notification capability: the
/// request queue of a block device, the transmit queue of a network device.
pub open spec fn notified_queue(kind: DeviceKind) -> u16 {
    match kind {
        DeviceKind::Block => 0,
        DeviceKind::Network => 1,
    }
}

/// The address `base + offset`, if it fits.
pub open spec fn offset_address(base: usize, offset: int) -> Option<usize> {
    if base + offset <= usize::MAX {
        Some((base + offset) as usize)
    } else {
        None
    }
}

/// The state with another phase.
pub open spec fn to_phase(s: InitState, p: InitPhase) -> InitState {
    InitState { phase: p, ..s }
}

/// Stops with a failed check.
pub open spec fn fail(s: InitState, f: InitFailure) -> (InitState, InitAction) {
    (to_phase(s, InitPhase::Stopped), InitAction::Fail(f))
}

/// The step after the device configuration capability was needed: map its
/// BAR, or give up when there is none.
pub open spec fn to_device_cfg(caps: Seq<VirtioCap>, s: InitState) -> (InitState, InitAction) {
    match first_cap(caps, VIRTIO_PCI_CAP_DEVICE_CFG) {
        None => (to_phase(s, InitPhase::Stopped), InitAction::Error(InitError::DeviceCfgMissing)),
        Some(d) => (to_phase(s, InitPhase::DeviceBar), InitAction::MapBar(caps[d].bar)),
    }
}

/// One step of bringing up a VirtIO device: from the state and what the
/// device answered, the next state and what to do.
pub open spec fn init_step(kind: DeviceKind, caps: Seq<VirtioCap>, s: InitState, e: InitEvent) -> (
    InitState,
    InitAction,
) {
    match (s.phase, e) {
        (InitPhase::Start, InitEvent::Begin) => match first_cap(caps, VIRTIO_PCI_CAP_COMMON_CFG) {
            None => (to_phase(s, InitPhase::Stopped), InitAction::Error(InitError::CommonCfgMissing)),
            Some(i) => (to_phase(s, InitPhase::CommonBar), InitAction::MapBar(caps[i].bar)),
        },
        (InitPhase::CommonBar, InitEvent::BarMapped(a)) => match first_cap(caps, VIRTIO_PCI_CAP_COMMON_CFG) {
            None => fail(s, InitFailure::UnexpectedEvent),
            Some(i) => match offset_address(a, caps[i].offset as int) {
                None => fail(s, InitFailure::AddressOverflow),
                Some(addr) => (to_phase(s, InitPhase::Resetting), InitAction::Reset(addr)),
            },
        },
        (InitPhase::Resetting, InitEvent::StatusRead(v)) => if v == 0 {
            (to_phase(s, InitPhase::Acknowledging), InitAction::SetStatus(DEVICE_STATUS_ACKNOWLEDGE))
        } else {
            (s, InitAction::ReadStatus)
        },
        (InitPhase::Acknowledging, InitEvent::StatusRead(v)) => if v & DEVICE_STATUS_FAILED != 0 {
            fail(s, InitFailure::DeviceFailed)
        } else {
            (
                InitState { phase: InitPhase::SettingDriver, confirmed: s.confirmed | DEVICE_STATUS_ACKNOWLEDGE, ..s },
                InitAction::SetStatus(DEVICE_STATUS_DRIVER),
            )
        },
        (InitPhase::SettingDriver, InitEvent::StatusRead(v)) => if v & DEVICE_STATUS_FAILED != 0 {
            fail(s, InitFailure::DeviceFailed)
        } else {
            (
                InitState { phase: InitPhase::FeaturesLow, confirmed: s.confirmed | DEVICE_STATUS_DRIVER, ..s },
                InitAction::ReadFeatures(0),
            )
        },
        (InitPhase::FeaturesLow, InitEvent::FeatureWord(w)) => (
            InitState { phase: InitPhase::FeaturesHigh, features_low: w, ..s },
            InitAction::ReadFeatures(1),
        ),
        (InitPhase::FeaturesHigh, InitEvent::FeatureWord(w)) => {
            let f = (s.features_low as u64) | ((w as u64) << 32u64);
            let wanted = wanted_features(kind);
            if f & VIRTIO_F_VERSION_1 == 0 {
                fail(s, InitFailure::Version1Unsupported)
            } else if f & wanted != wanted {
                fail(s, InitFailure::FeaturesUnsupported)
            } else {
                (
                    to_phase(s, InitPhase::WritingFeatures),
                    InitAction::WriteFeatures((wanted & 0xFFFF_FFFFu64) as u32, (wanted >> 32u64) as u32),
                )
            }
        },
        (InitPhase::WritingFeatures, InitEvent::Done) => (
            to_phase(s, InitPhase::FeaturesOk),
            InitAction::SetStatus(DEVICE_STATUS_FEATURES_OK),
        ),
        (InitPhase::FeaturesOk, InitEvent::StatusRead(v)) => if v & DEVICE_STATUS_FAILED != 0 {
            fail(s, InitFailure::DeviceFailed)
        } else if v & DEVICE_STATUS_FEATURES_OK == 0 {
            fail(s, InitFailure::FeaturesNotAccepted)
        } else {
            let s2 = InitState { confirmed: s.confirmed | DEVICE_STATUS_FEATURES_OK, ..s };
            match first_cap(caps, VIRTIO_PCI_CAP_NOTIFY_CFG) {
                None => (to_phase(s2, InitPhase::Stopped), InitAction::Error(InitError::NotifyCfgMissing)),
                Some(n) => {
                    let c = caps[n];
                    let m = c.notify_off_multiplier;
                    if !(m == 0 || m & ((m - 1) as u32) == 0) {
                        fail(s2, InitFailure::BadNotifyMultiplier)
                    } else if kind == DeviceKind::Network && c.offset % 16 != 0 {
                        fail(s2, InitFailure::BadNotifyOffset)
                    } else if kind == DeviceKind::Network && c.length < 2 {
                        fail(s2, InitFailure::BadNotifyLength)
                    } else {
                        (to_phase(s2, InitPhase::NotifyBar), InitAction::MapBar(c.bar))
                    }
                },
            }
        },
        (InitPhase::NotifyBar, InitEvent::BarMapped(a)) => (
            InitState { phase: InitPhase::CreatingQueues, notify_bar: a, ..s },
            InitAction::CreateQueues(queue_count(kind)),
        ),
        (InitPhase::CreatingQueues, InitEvent::QueueNotifyOffset(off)) => match first_cap(
            caps,
            VIRTIO_PCI_CAP_NOTIFY_CFG,
        ) {
            None => fail(s, InitFailure::UnexpectedEvent),
            Some(n) => {
                let c = caps[n];
                let span = off * c.notify_off_multiplier;
                if kind == DeviceKind::Network && (span + 2 > u32::MAX || c.length < span + 2) {
                    fail(s, InitFailure::NotifyOutOfRange)
                } else {
                    match offset_address(s.notify_bar, c.offset + span) {
                        None => fail(s, InitFailure::AddressOverflow),
                        Some(addr) => (
                            to_phase(s, InitPhase::ConfiguringQueues),
                            InitAction::ConfigureQueues(addr, notified_queue(kind)),
                        ),
                    }
                }
            },
        },
        (InitPhase::ConfiguringQueues, InitEvent::Done) => match kind {
            DeviceKind::Block => to_device_cfg(caps, s),
            DeviceKind::Network => (
                to_phase(s, InitPhase::DriverOk),
                InitAction::SetStatus(DEVICE_STATUS_DRIVER_OK),
            ),
        },
        (InitPhase::DeviceBar, InitEvent::BarMapped(a)) => match first_cap(caps, VIRTIO_PCI_CAP_DEVICE_CFG) {
            None => fail(s, InitFailure::UnexpectedEvent),
            Some(d) => match offset_address(a, caps[d].offset as int) {
                None => fail(s, InitFailure::AddressOverflow),
                Some(addr) => match kind {
                    DeviceKind::Block => (
                        to_phase(s, InitPhase::ReadingCapacity),
                        InitAction::ReadCapacity(addr),
                    ),
                    DeviceKind::Network => (
                        to_phase(s, InitPhase::FillingQueue),
                        InitAction::FillReceiveQueue(addr),
                    ),
                },
            },
        },
        (InitPhase::ReadingCapacity, InitEvent::CapacityRead(c)) => (
            InitState { phase: InitPhase::DriverOk, capacity: c, ..s },
            InitAction::SetStatus(DEVICE_STATUS_DRIVER_OK),
        ),
        (InitPhase::DriverOk, InitEvent::StatusRead(v)) => if v & DEVICE_STATUS_FAILED != 0 {
            fail(s, InitFailure::DeviceFailed)
        } else {
            match kind {
                DeviceKind::Block => (
                    InitState {
                        phase: InitPhase::EnablingBusMaster,
                        confirmed: s.confirmed | DEVICE_STATUS_DRIVER_OK,
                        ..s
                    },
                    InitAction::EnableBusMaster,
                ),
                DeviceKind::Network => if v & DEVICE_STATUS_DRIVER_OK == 0 {
                    fail(s, InitFailure::DriverNotOk)
                } else {
                    to_device_cfg(caps, InitState { confirmed: s.confirmed | DEVICE_STATUS_DRIVER_OK, ..s })
                },
            }
        },
        (InitPhase::EnablingBusMaster, InitEvent::Done) => (to_phase(s, InitPhase::Ready), InitAction::Finished),
        (InitPhase::FillingQueue, InitEvent::MacRead(mac)) => (
            InitState { phase: InitPhase::Ready, mac, ..s },
            InitAction::Finished,
        ),
        _ => fail(s, InitFailure::UnexpectedEvent),
    }
}


/// What every state of a bring-up that started with `VirtioInit::new`
/// satisfies: once past feature negotiation the device has confirmed
/// FEATURES_OK, and once ready it has confirmed DRIVER_OK.
pub open spec fn init_inv(kind: DeviceKind, s: InitState) -> bool {
    &&& (s.phase is NotifyBar || s.phase is CreatingQueues || s.phase is ConfiguringQueues
        || s.phase is DeviceBar || s.phase is ReadingCapacity || s.phase is DriverOk
        || s.phase is EnablingBusMaster || s.phase is FillingQueue || s.phase is Ready)
        ==> s.confirmed & DEVICE_STATUS_FEATURES_OK != 0
    &&& (s.phase is EnablingBusMaster || s.phase is FillingQueue || s.phase is Ready || (kind
        == DeviceKind::Network && s.phase is DeviceBar)) ==> s.confirmed & DEVICE_STATUS_DRIVER_OK != 0
}

proof fn lemma_status_bits(c: u8, b: u8)
    ensures
        c & 8 != 0 ==> (c | b) & 8 != 0,
        c & 4 != 0 ==> (c | b) & 4 != 0,
        (c | 8) & 8 != 0,
        (c | 4) & 4 != 0,
        0u8 & 8 == 0,
        0u8 & 4 == 0,
{
    assert(c & 8 != 0 ==> (c | b) & 8 != 0) by (bit_vector);
    assert(c & 4 != 0 ==> (c | b) & 4 != 0) by (bit_vector);
    assert((c | 8) & 8 != 0 && (c | 4) & 4 != 0 && 0u8 & 8 == 0 && 0u8 & 4 == 0) by (bit_vector);
}

/// The driver tells the device it is ready (DRIVER_OK) only after the device
/// accepted the negotiated features (FEATURES_OK), and reports the device up
/// only after the device took DRIVER_OK; every step keeps this so.
pub proof fn lemma_driver_ok_after_features_ok(
    kind: DeviceKind,
    caps: Seq<VirtioCap>,
    s: InitState,
    e: InitEvent,
)
    requires
        init_inv(kind, s),
    ensures
        init_inv(kind, init_step(kind, caps, s, e).0),
        init_step(kind, caps, s, e).1 matches InitAction::SetStatus(b) && b == DEVICE_STATUS_DRIVER_OK
            ==> s.confirmed & DEVICE_STATUS_FEATURES_OK != 0,
        init_step(kind, caps, s, e).1 is Finished ==> init_step(kind, caps, s, e).0.confirmed
            & DEVICE_STATUS_DRIVER_OK != 0,
{
    lemma_status_bits(s.confirmed, DEVICE_STATUS_ACKNOWLEDGE);
    lemma_status_bits(s.confirmed, DEVICE_STATUS_DRIVER);
    lemma_status_bits(s.confirmed, DEVICE_STATUS_FEATURES_OK);
    lemma_status_bits(s.confirmed, DEVICE_STATUS_DRIVER_OK);
}

/// A bring-up that has just started satisfies the invariant.
pub proof fn lemma_init_inv_start(kind: DeviceKind, s: InitState)
    requires
        s.phase == InitPhase::Start,
    ensures
        init_inv(kind, s),
{
}

/// The position of the first VirtIO capability of kind `cfg_type`.
pub fn find_capability(caps: &Vec<VirtioCap>, cfg_type: u8) -> (r: Option<usize>)
    ensures
        match r {
            Some(i) => first_cap(caps@, cfg_type) == Some(i as int) && i < caps@.len(),
            None => first_cap(caps@, cfg_type) is None,
        },
{
    let mut i: usize = 0;
    assert(caps@.skip(0) =~= caps@);
    while i < caps.len()
        invariant
            i <= caps@.len(),
            first_cap(caps@, cfg_type) == match first_cap(caps@.skip(i as int), cfg_type) {
                Some(j) => Some(j + i),
                None => None::<int>,
            },
        decreases caps@.len() - i,
    {
        assert(caps@.skip(i as int)[0] == caps@[i as int]);
        assert(caps@.skip(i as int).drop_first() =~= caps@.skip(i + 1));
        if caps[i].id == VIRTIO_VENDOR_SPECIFIC_CAPABILITY_ID && caps[i].cfg_type == cfg_type {
            return Some(i);
        }
        i = i + 1;
    }
    assert(caps@.skip(i as int) =~= Seq::<VirtioCap>::empty());
    None
}

proof fn lemma_first_cap_bounds(caps: Seq<VirtioCap>, cfg_type: u8)
    ensures
        first_cap(caps, cfg_type) matches Some(i) ==> 0 <= i < caps.len() && cap_is(caps[i], cfg_type),
    decreases caps.len(),
{
    if caps.len() > 0 {
        lemma_first_cap_bounds(caps.drop_first(), cfg_type);
    }
}

/// Whether the PCI ids name a VirtIO device of the given subsystem.
pub fn is_virtio_device(vendor_id: u16, device_id: u16, subsystem_id: u16, subsystem: u16) -> (r: bool)
    ensures
        r == (vendor_id == VIRTIO_VENDOR_ID && VIRTIO_DEVICE_ID_FIRST <= device_id
            <= VIRTIO_DEVICE_ID_LAST && subsystem_id == subsystem),
{
    vendor_id == VIRTIO_VENDOR_ID && VIRTIO_DEVICE_ID_FIRST <= device_id && device_id
        <= VIRTIO_DEVICE_ID_LAST && subsystem_id == subsystem
}

/// The bring-up of a VirtIO device over its PCI capabilities.
pub struct VirtioInit {
    kind: DeviceKind,
    caps: Vec<VirtioCap>,
    state: InitState,
}

impl VirtioInit {
    /// The kind of device being brought up.
    pub closed spec fn kind(&self) -> DeviceKind {
        self.kind
    }

    /// The capabilities of the device.
    pub closed spec fn caps(&self) -> Seq<VirtioCap> {
        self.caps@
    }

    /// The state reached.
    pub closed spec fn state(&self) -> InitState {
        self.state
    }

    /// Starts bringing up a device of `kind` with the capabilities `caps`.
    pub fn new(kind: DeviceKind, caps: Vec<VirtioCap>) -> (r: Self)
        ensures
            r.kind() == kind,
            r.caps() == caps@,
            r.state().phase == InitPhase::Start,
            r.state().features_low == 0,
            r.state().notify_bar == 0,
            r.state().capacity == 0,
            r.state().mac@ == seq![0u8, 0u8, 0u8, 0u8, 0u8, 0u8],
            r.state().confirmed == 0,
    {
        VirtioInit {
            kind,
            caps,
            state: InitState {
                phase: InitPhase::Start,
                features_low: 0,
                notify_bar: 0,
                capacity: 0,
                mac: [0u8, 0u8, 0u8, 0u8, 0u8, 0u8],
                confirmed: 0,
            },
        }
    }

    /// The kind of device being brought up.
    pub fn device_kind(&self) -> (r: DeviceKind)
        ensures
            r == self.kind(),
    {
        self.kind
    }

    /// The phase reached.
    pub fn phase(&self) -> (r: InitPhase)
        ensures
            r == self.state().phase,
    {
        self.state.phase
    }

    /// The capacity read from a block device, in sectors.
    pub fn capacity(&self) -> (r: u64)
        ensures
            r == self.state().capacity,
    {
        self.state.capacity
    }

    /// The MAC address read from a network device.
    pub fn mac(&self) -> (r: [u8; 6])
        ensures
            r == self.state().mac,
    {
        self.state.mac
    }

    /// Takes what the device answered and says what to do next.
    pub fn step(&mut self, event: InitEvent) -> (r: InitAction)
        ensures
            final(self).kind() == old(self).kind(),
            final(self).caps() == old(self).caps(),
            (final(self).state(), r) == init_step(old(self).kind(), old(self).caps(), old(self).state(), event),
    {
        let (next, action) = self.transition(event);
        self.state = next;
        action
    }

    fn stop(s: InitState, f: InitFailure) -> (r: (InitState, InitAction))
        ensures
            r == fail(s, f),
    {
        (InitState { phase: InitPhase::Stopped, ..s }, InitAction::Fail(f))
    }

    fn device_cfg(&self, s: InitState) -> (r: (InitState, InitAction))
        ensures
            r == to_device_cfg(self.caps@, s),
    {
        proof {
            lemma_first_cap_bounds(self.caps@, VIRTIO_PCI_CAP_DEVICE_CFG);
        }
        match find_capability(&self.caps, VIRTIO_PCI_CAP_DEVICE_CFG) {
            None => (InitState { phase: InitPhase::Stopped, ..s }, InitAction::Error(InitError::DeviceCfgMissing)),
            Some(d) => (InitState { phase: InitPhase::DeviceBar, ..s }, InitAction::MapBar(self.caps[d].bar)),
        }
    }

    fn transition(&self, event: InitEvent) -> (r: (InitState, InitAction))
        ensures
            r == init_step(self.kind, self.caps@, self.state, event),
    {
        let s = self.state;
        let kind = self.kind;
        proof {
            lemma_first_cap_bounds(self.caps@, VIRTIO_PCI_CAP_COMMON_CFG);
            lemma_first_cap_bounds(self.caps@, VIRTIO_PCI_CAP_NOTIFY_CFG);
            lemma_first_cap_bounds(self.caps@, VIRTIO_PCI_CAP_DEVICE_CFG);
        }
        match (s.phase, event) {
            (InitPhase::Start, InitEvent::Begin) => match find_capability(&self.caps, VIRTIO_PCI_CAP_COMMON_CFG) {
                None => (InitState { phase: InitPhase::Stopped, ..s }, InitAction::Error(InitError::CommonCfgMissing)),
                Some(i) => (InitState { phase: InitPhase::CommonBar, ..s }, InitAction::MapBar(self.caps[i].bar)),
            },
            (InitPhase::CommonBar, InitEvent::BarMapped(a)) => match find_capability(
                &self.caps,
                VIRTIO_PCI_CAP_COMMON_CFG,
            ) {
                None => Self::stop(s, InitFailure::UnexpectedEvent),
                Some(i) => match a.checked_add(self.caps[i].offset as usize) {
                    None => Self::stop(s, InitFailure::AddressOverflow),
                    Some(addr) => (InitState { phase: InitPhase::Resetting, ..s }, InitAction::Reset(addr)),
                },
            },
            (InitPhase::Resetting, InitEvent::StatusRead(v)) => if v == 0 {
                (InitState { phase: InitPhase::Acknowledging, ..s }, InitAction::SetStatus(DEVICE_STATUS_ACKNOWLEDGE))
            } else {
                (s, InitAction::ReadStatus)
            },
            (InitPhase::Acknowledging, InitEvent::StatusRead(v)) => if v & DEVICE_STATUS_FAILED != 0 {
                Self::stop(s, InitFailure::DeviceFailed)
            } else {
                (
                    InitState { phase: InitPhase::SettingDriver, confirmed: s.confirmed | DEVICE_STATUS_ACKNOWLEDGE, ..s },
                    InitAction::SetStatus(DEVICE_STATUS_DRIVER),
                )
            },
            (InitPhase::SettingDriver, InitEvent::StatusRead(v)) => if v & DEVICE_STATUS_FAILED != 0 {
                Self::stop(s, InitFailure::DeviceFailed)
            } else {
                (
                    InitState { phase: InitPhase::FeaturesLow, confirmed: s.confirmed | DEVICE_STATUS_DRIVER, ..s },
                    InitAction::ReadFeatures(0),
                )
            },
            (InitPhase::FeaturesLow, InitEvent::FeatureWord(w)) => (
                InitState { phase: InitPhase::FeaturesHigh, features_low: w, ..s },
                InitAction::ReadFeatures(1),
            ),
            (InitPhase::FeaturesHigh, InitEvent::FeatureWord(w)) => {
                let f: u64 = (s.features_low as u64) | ((w as u64) << 32u64);
                let wanted: u64 = match kind {
                    DeviceKind::Block => VIRTIO_F_VERSION_1,
                    DeviceKind::Network => VIRTIO_F_VERSION_1 | VIRTIO_NET_F_MAC,
                };
                if f & VIRTIO_F_VERSION_1 == 0 {
                    Self::stop(s, InitFailure::Version1Unsupported)
                } else if f & wanted != wanted {
                    Self::stop(s, InitFailure::FeaturesUnsupported)
                } else {
                    (
                        InitState { phase: InitPhase::WritingFeatures, ..s },
                        InitAction::WriteFeatures((wanted & 0xFFFF_FFFFu64) as u32, (wanted >> 32u64) as u32),
                    )
                }
            },
            (InitPhase::WritingFeatures, InitEvent::Done) => (
                InitState { phase: InitPhase::FeaturesOk, ..s },
                InitAction::SetStatus(DEVICE_STATUS_FEATURES_OK),
            ),
            (InitPhase::FeaturesOk, InitEvent::StatusRead(v)) => if v & DEVICE_STATUS_FAILED != 0 {
                Self::stop(s, InitFailure::DeviceFailed)
            } else if v & DEVICE_STATUS_FEATURES_OK == 0 {
                Self::stop(s, InitFailure::FeaturesNotAccepted)
            } else {
                let s2 = InitState { confirmed: s.confirmed | DEVICE_STATUS_FEATURES_OK, ..s };
                match find_capability(&self.caps, VIRTIO_PCI_CAP_NOTIFY_CFG) {
                    None => (InitState { phase: InitPhase::Stopped, ..s2 }, InitAction::Error(InitError::NotifyCfgMissing)),
                    Some(n) => {
                        let c = self.caps[n];
                        let m = c.notify_off_multiplier;
                        if !(m == 0 || m & (m - 1) == 0) {
                            Self::stop(s2, InitFailure::BadNotifyMultiplier)
                        } else if kind == DeviceKind::Network && c.offset % 16 != 0 {
                            Self::stop(s2, InitFailure::BadNotifyOffset)
                        } else if kind == DeviceKind::Network && c.length < 2 {
                            Self::stop(s2, InitFailure::BadNotifyLength)
                        } else {
                            (InitState { phase: InitPhase::NotifyBar, ..s2 }, InitAction::MapBar(c.bar))
                        }
                    },
                }
            },
            (InitPhase::NotifyBar, InitEvent::BarMapped(a)) => (
                InitState { phase: InitPhase::CreatingQueues, notify_bar: a, ..s },
                InitAction::CreateQueues(
                    match kind {
                        DeviceKind::Block => 1,
                        DeviceKind::Network => 2,
                    },
                ),
            ),
            (InitPhase::CreatingQueues, InitEvent::QueueNotifyOffset(off)) => match find_capability(
                &self.caps,
                VIRTIO_PCI_CAP_NOTIFY_CFG,
            ) {
                None => Self::stop(s, InitFailure::UnexpectedEvent),
                Some(n) => {
                    let c = self.caps[n];
                    proof {
                        let a = off as u64;
                        let b = c.notify_off_multiplier as u64;
                        assert(a * b <= 0xFFFF * 0xFFFF_FFFFu64) by (nonlinear_arith)
                            requires
                                a <= 0xFFFF,
                                b <= 0xFFFF_FFFFu64,
                        ;
                    }
                    let span: u64 = (off as u64) * (c.notify_off_multiplier as u64);
                    if kind == DeviceKind::Network && (span + 2 > u32::MAX as u64 || (c.length as u64) < span + 2) {
                        Self::stop(s, InitFailure::NotifyOutOfRange)
                    } else {
                        let queue: u16 = match kind {
                            DeviceKind::Block => 0,
                            DeviceKind::Network => 1,
                        };
                        match Self::notify_address(s.notify_bar, c.offset, span) {
                            None => Self::stop(s, InitFailure::AddressOverflow),
                            Some(addr) => (
                                InitState { phase: InitPhase::ConfiguringQueues, ..s },
                                InitAction::ConfigureQueues(addr, queue),
                            ),
                        }
                    }
                },
            },
            (InitPhase::ConfiguringQueues, InitEvent::Done) => match kind {
                DeviceKind::Block => self.device_cfg(s),
                DeviceKind::Network => (
                    InitState { phase: InitPhase::DriverOk, ..s },
                    InitAction::SetStatus(DEVICE_STATUS_DRIVER_OK),
                ),
            },
            (InitPhase::DeviceBar, InitEvent::BarMapped(a)) => match find_capability(
                &self.caps,
                VIRTIO_PCI_CAP_DEVICE_CFG,
            ) {
                None => Self::stop(s, InitFailure::UnexpectedEvent),
                Some(d) => match a.checked_add(self.caps[d].offset as usize) {
                    None => Self::stop(s, InitFailure::AddressOverflow),
                    Some(addr) => match kind {
                        DeviceKind::Block => (
                            InitState { phase: InitPhase::ReadingCapacity, ..s },
                            InitAction::ReadCapacity(addr),
                        ),
                        DeviceKind::Network => (
                            InitState { phase: InitPhase::FillingQueue, ..s },
                            InitAction::FillReceiveQueue(addr),
                        ),
                    },
                },
            },
            (InitPhase::ReadingCapacity, InitEvent::CapacityRead(c)) => (
                InitState { phase: InitPhase::DriverOk, capacity: c, ..s },
                InitAction::SetStatus(DEVICE_STATUS_DRIVER_OK),
            ),
            (InitPhase::DriverOk, InitEvent::StatusRead(v)) => if v & DEVICE_STATUS_FAILED != 0 {
                Self::stop(s, InitFailure::DeviceFailed)
            } else {
                match kind {
                    DeviceKind::Block => (
                        InitState {
                            phase: InitPhase::EnablingBusMaster,
                            confirmed: s.confirmed | DEVICE_STATUS_DRIVER_OK,
                            ..s
                        },
                        InitAction::EnableBusMaster,
                    ),
                    DeviceKind::Network => if v & DEVICE_STATUS_DRIVER_OK == 0 {
                        Self::stop(s, InitFailure::DriverNotOk)
                    } else {
                        self.device_cfg(InitState { confirmed: s.confirmed | DEVICE_STATUS_DRIVER_OK, ..s })
                    },
                }
            },
            (InitPhase::EnablingBusMaster, InitEvent::Done) => (
                InitState { phase: InitPhase::Ready, ..s },
                InitAction::Finished,
            ),
            (InitPhase::FillingQueue, InitEvent::MacRead(mac)) => (
                InitState { phase: InitPhase::Ready, mac, ..s },
                InitAction::Finished,
            ),
            _ => Self::stop(s, InitFailure::UnexpectedEvent),
        }
    }

    /// `base + offset + span`, if it fits.
    fn notify_address(base: usize, offset: u32, span: u64) -> (r: Option<usize>)
        ensures
            r == offset_address(base, offset + span),
    {
        let with_offset = match base.checked_add(offset as usize) {
            Some(a) => a,
            None => {
                return None;
            },
        };
        if span > usize::MAX as u64 {
            return None;
        }
        with_offset.checked_add(span as usize)
    }
}

} // verus!
