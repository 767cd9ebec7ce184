#![allow(non_camel_case_types)]

use vstd::prelude::*;

verus! {

pub type zx_gpaddr_t = usize;
pub type zx_handle_t = u32;
pub type zx_handle_op_t = u32;
pub type zx_koid_t = u64;
pub type zx_obj_type_t = u32;
pub type zx_rights_t = u32;
pub type zx_signals_t = u32;
pub type zx_status_t = i32;
pub type zx_ticks_t = i64;
pub type zx_time_t = i64;
pub type zx_duration_t = i64;

pub const ZX_MAX_NAME_LEN: usize = 32;

pub const X86_MAX_INST_LEN: usize = 15;

const ZX_CPU_SET_MAX_CPUS: usize = 512;

const ZX_CPU_SET_BITS_PER_WORD: usize = 64;

const ZX_CPU_SET_WORDS: usize = ZX_CPU_SET_MAX_CPUS / ZX_CPU_SET_BITS_PER_WORD;

/// A topic of `zx_object_get_info` with its version in the top four bits.
pub open spec fn versioned_topic(topic: u32, version: u32) -> u32 {
    (version << 28u32) | topic
}

/// Builds a versioned info topic: the version goes in the top four bits, the topic below them.
pub fn info_topic(topic: u32, version: u32) -> (r: u32)
    ensures
        r == versioned_topic(topic, version),
        version < 16 && topic < 0x1000_0000 ==> r >> 28u32 == version && r & 0x0fff_ffffu32
            == topic,
{
    let r = (version << 28u32) | topic;
    assert(version < 16 && topic < 0x1000_0000 ==> ((version << 28u32) | topic) >> 28u32 == version
        && ((version << 28u32) | topic) & 0x0fff_ffffu32 == topic) by (bit_vector);
    r
}

#[derive(Debug, Clone)]
pub struct zx_clock_create_args_v1_t {
    pub backstop_time: zx_time_t,
}

#[derive(Debug, Clone)]
pub struct zx_clock_rate_t {
    pub synthetic_ticks: u32,
    pub reference_ticks: u32,
}

#[derive(Debug, Clone)]
pub struct zx_clock_transformation_t {
    pub reference_offset: i64,
    pub synthetic_offset: i64,
    pub rate: zx_clock_rate_t,
}

#[derive(Debug, Clone)]
pub struct zx_clock_details_v1_t {
    pub options: u64,
    pub backstop_time: zx_time_t,
    pub ticks_to_synthetic: zx_clock_transformation_t,
    pub mono_to_synthetic: zx_clock_transformation_t,
    pub error_bound: u64,
    pub query_ticks: zx_ticks_t,
    pub last_value_update_ticks: zx_ticks_t,
    pub last_rate_adjust_update_ticks: zx_ticks_t,
    pub last_error_bounds_update_ticks: zx_ticks_t,
    pub generation_counter: u32,
    pub padding1: [u8; 4],
}

#[derive(Debug, Clone)]
pub struct zx_clock_update_args_v1_t {
    pub rate_adjust: i32,
    pub padding1: [u8; 4],
    pub value: i64,
    pub error_bound: u64,
}

#[derive(Debug, Copy, Clone, Eq, PartialEq)]
pub enum zx_cache_policy_t {
    ZX_CACHE_POLICY_CACHED,
    ZX_CACHE_POLICY_UNCACHED,
    ZX_CACHE_POLICY_UNCACHED_DEVICE,
    ZX_CACHE_POLICY_WRITE_COMBINING,
}

impl zx_cache_policy_t {
    /// The value that the kernel uses for this policy.
    pub fn raw(self) -> (r: u32)
        ensures
            r == match self {
                zx_cache_policy_t::ZX_CACHE_POLICY_CACHED => 0u32,
                zx_cache_policy_t::ZX_CACHE_POLICY_UNCACHED => 1u32,
                zx_cache_policy_t::ZX_CACHE_POLICY_UNCACHED_DEVICE => 2u32,
                zx_cache_policy_t::ZX_CACHE_POLICY_WRITE_COMBINING => 3u32,
            },
    {
        match self {
            zx_cache_policy_t::ZX_CACHE_POLICY_CACHED => 0,
            zx_cache_policy_t::ZX_CACHE_POLICY_UNCACHED => 1,
            zx_cache_policy_t::ZX_CACHE_POLICY_UNCACHED_DEVICE => 2,
            zx_cache_policy_t::ZX_CACHE_POLICY_WRITE_COMBINING => 3,
        }
    }
}

#[derive(Debug, Copy, Clone, Eq, PartialEq)]
pub struct zx_wait_item_t {
    pub handle: zx_handle_t,
    pub waitfor: zx_signals_t,
    pub pending: zx_signals_t,
}

#[derive(Debug, Copy, Clone, Eq, PartialEq)]
pub struct zx_waitset_result_t {
    pub cookie: u64,
    pub status: zx_status_t,
    pub observed: zx_signals_t,
}

#[derive(Debug, Copy, Clone, Eq, PartialEq)]
pub struct zx_handle_info_t {
    pub handle: zx_handle_t,
    pub ty: zx_obj_type_t,
    pub rights: zx_rights_t,
    pub unused: u32,
}

#[derive(Debug, Copy, Clone, Eq, PartialEq)]
pub struct zx_handle_disposition_t {
    pub operation: zx_handle_op_t,
    pub handle: zx_handle_t,
    pub type_: zx_obj_type_t,
    pub rights: zx_rights_t,
    pub result: zx_status_t,
}

#[derive(Debug, Copy, Clone, Eq, PartialEq)]
pub struct zx_pci_init_arg_t {
    pub dev_pin_to_global_irq: [[[u32; 4]; 8]; 32],
    pub num_irqs: u32,
    pub irqs: [zx_irq_t; 32],
    pub ecam_window_count: u32,
    pub ecam_windows: [zx_ecam_window_t; 1],
}

#[derive(Debug, Copy, Clone, Eq, PartialEq)]
pub struct zx_irq_t {
    pub global_irq: u32,
    pub level_triggered: bool,
    pub active_high: bool,
}

#[derive(Debug, Copy, Clone, Eq, PartialEq)]
pub struct zx_ecam_window_t {
    pub base: u64,
    pub size: usize,
    pub bus_start: u8,
    pub bus_end: u8,
}

#[derive(Debug, Copy, Clone, Eq, PartialEq)]
pub struct zx_pcie_device_info_t {
    pub vendor_id: u16,
    pub device_id: u16,
    pub base_class: u8,
    pub sub_class: u8,
    pub program_interface: u8,
    pub revision_id: u8,
    pub bus_id: u8,
    pub dev_id: u8,
    pub func_id: u8,
}

#[derive(Debug, Copy, Clone, Eq, PartialEq)]
pub struct zx_pci_resource_t {
    pub type_: u32,
    pub size: usize,
    pub pio_addr: usize,
}

#[derive(Debug, Copy, Clone, Eq, PartialEq)]
pub enum zx_packet_type_t {
    ZX_PKT_TYPE_USER,
    ZX_PKT_TYPE_SIGNAL_ONE,
    ZX_PKT_TYPE_GUEST_BELL,
    ZX_PKT_TYPE_GUEST_MEM,
    ZX_PKT_TYPE_GUEST_IO,
}

impl zx_packet_type_t {
    /// The value that the kernel uses for this packet type.
    pub fn raw(self) -> (r: u32)
        ensures
            r == match self {
                zx_packet_type_t::ZX_PKT_TYPE_USER => 0u32,
                zx_packet_type_t::ZX_PKT_TYPE_SIGNAL_ONE => 1u32,
                zx_packet_type_t::ZX_PKT_TYPE_GUEST_BELL => 3u32,
                zx_packet_type_t::ZX_PKT_TYPE_GUEST_MEM => 4u32,
                zx_packet_type_t::ZX_PKT_TYPE_GUEST_IO => 5u32,
            },
    {
        match self {
            zx_packet_type_t::ZX_PKT_TYPE_USER => 0,
            zx_packet_type_t::ZX_PKT_TYPE_SIGNAL_ONE => 1,
            zx_packet_type_t::ZX_PKT_TYPE_GUEST_BELL => 3,
            zx_packet_type_t::ZX_PKT_TYPE_GUEST_MEM => 4,
            zx_packet_type_t::ZX_PKT_TYPE_GUEST_IO => 5,
        }
    }
}

impl Default for zx_packet_type_t {
    fn default() -> (r: Self)
        ensures
            r == zx_packet_type_t::ZX_PKT_TYPE_USER,
    {
        zx_packet_type_t::ZX_PKT_TYPE_USER
    }
}

#[derive(Debug, Copy, Clone)]
pub struct zx_packet_signal_t {
    pub trigger: zx_signals_t,
    pub observed: zx_signals_t,
    pub count: u64,
}

#[derive(Debug, Default, Copy, Clone, Eq, PartialEq)]
pub struct zx_port_packet_t {
    pub key: u64,
    pub packet_type: zx_packet_type_t,
    pub status: i32,
    pub union: [u8; 32],
}

#[derive(Debug, Copy, Clone, Eq, PartialEq)]
pub struct zx_packet_guest_bell_t {
    pub addr: zx_gpaddr_t,
}

#[derive(Debug, Copy, Clone, Eq, PartialEq)]
pub struct zx_packet_guest_io_t {
    pub port: u16,
    pub access_size: u8,
    pub input: bool,
    pub data: [u8; 4],
}

#[derive(Debug, Copy, Clone, Eq, PartialEq)]
pub struct zx_packet_guest_mem_t {
    pub addr: zx_gpaddr_t,
    pub inst_len: u8,
    pub inst_buf: [u8; X86_MAX_INST_LEN],
    pub default_operand_size: u8,
}

#[derive(Default, Debug, Copy, Clone, Eq, PartialEq)]
pub struct zx_info_handle_basic_t {
    pub koid: zx_koid_t,
    pub rights: zx_rights_t,
    pub type_: zx_obj_type_t,
    pub related_koid: zx_koid_t,
    pub reserved: u32,
}

#[derive(Default, Debug, Copy, Clone, Eq, PartialEq)]
pub struct zx_info_socket_t {
    pub options: u32,
    pub rx_buf_max: usize,
    pub rx_buf_size: usize,
    pub rx_buf_available: usize,
    pub tx_buf_max: usize,
    pub tx_buf_size: usize,
}

#[derive(Debug, Copy, Clone, Eq, PartialEq)]
pub struct zx_policy_basic {
    pub condition: u32,
    pub policy: u32,
}

#[derive(Debug, Copy, Clone, Eq, PartialEq)]
pub struct zx_policy_timer_slack {
    pub min_slack: zx_duration_t,
    pub default_mode: u32,
}

#[derive(Default, Debug, Copy, Clone, Eq, PartialEq)]
pub struct zx_info_vmo_t {
    pub koid: zx_koid_t,
    pub name: [u8; ZX_MAX_NAME_LEN],
    pub size: u64,
    pub parent_koid: zx_koid_t,
    pub num_children: usize,
    pub num_mappings: usize,
    pub share_count: usize,
    pub flags: u32,
    pub committed_bytes: u64,
    pub handle_rights: zx_rights_t,
    pub cache_policy: u32,
    pub metadata_bytes: u64,
    pub committed_change_events: u64,
}

/// The argument of a power control request: one of the two kinds of request that it can carry.
pub struct zx_system_powerctl_arg_t {
    powerctl_internal: zx_powerctl_union,
}

#[derive(Copy, Clone)]
pub enum zx_powerctl_union {
    AcpiTransitionSState(acpi_transition_s_state),
    X86PowerLimit(x86_power_limit),
}

#[derive(Default, Debug, PartialEq, Copy, Clone)]
pub struct acpi_transition_s_state {
    target_s_state: u8,
    sleep_type_a: u8,
    sleep_type_b: u8,
    _padding1: [u8; 9],
}

#[derive(Default, Debug, PartialEq, Copy, Clone)]
pub struct x86_power_limit {
    power_limit: u32,
    time_window: u32,
    clamp: u8,
    enable: u8,
    _padding2: [u8; 2],
}

/// A PCI base address register: its identifier, type and size, and either an address or a
/// handle.
pub struct zx_pci_bar_t {
    id: u32,
    ty: u32,
    size: usize,
    zx_pci_bar_union: zx_pci_bar_union,
}

#[derive(Copy, Clone)]
pub enum zx_pci_bar_union {
    Addr(usize),
    Handle(zx_pci_bar_union_struct),
}

#[derive(Default, Debug, PartialEq, Copy, Clone)]
pub struct zx_pci_bar_union_struct {
    handle: zx_handle_t,
    _padding1: [u8; 4],
}

#[derive(Debug, Copy, Clone, Eq, PartialEq)]
pub struct zx_smc_parameters_t {
    func_id: u32,
    _padding1: [u8; 4],
    arg1: u64,
    arg2: u64,
    arg3: u64,
    arg4: u64,
    arg5: u64,
    arg6: u64,
    client_id: u16,
    secure_os_id: u16,
    _padding2: [u8; 4],
}

#[derive(Debug, Copy, Clone, Eq, PartialEq)]
pub struct zx_smc_result_t {
    arg0: u64,
    arg1: u64,
    arg2: u64,
    arg3: u64,
    arg6: u64,
}

#[derive(Debug, Copy, Clone, Eq, PartialEq)]
pub struct zx_cpu_set_t {
    mask: [u64; ZX_CPU_SET_WORDS],
}

/// Scheduling parameters of a profile: flags, either a priority or deadline parameters, and the
/// CPUs it may run on.
#[derive(Copy, Clone)]
pub struct zx_profile_info_t {
    flags: u32,
    _padding1: [u8; 4],
    zx_profile_info_union: zx_profile_info_union,
    cpu_affinity_mask: zx_cpu_set_t,
}

#[derive(Copy, Clone)]
struct priority_params {
    priority: i32,
    _padding2: [u8; 20],
}

#[derive(Copy, Clone)]
enum zx_profile_info_union {
    PriorityParams(priority_params),
    DeadlineParams(zx_sched_deadline_params_t),
}

#[derive(Debug, Copy, Clone, Eq, PartialEq)]
struct zx_sched_deadline_params_t {
    capacity: zx_duration_t,
    relative_deadline: zx_duration_t,
    period: zx_duration_t,
}

} // verus!
