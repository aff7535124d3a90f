use vstd::prelude::*;
use crate::constraints::SlotConstraint;
use crate::geometry::{spec_orientation, Direction, Orientation, Region, Viewport};
use crate::split::{lemma_split_in_parent, spec_split, split_region};

verus! {

/// Content lines packed into one displayed row of the CPU panel.
pub const CPU_GROUP_SIZE: u16 = 5;

/// Border rows added around a content-driven panel's body.
pub const PANEL_CHROME: u16 = 2;

/// Minimum length of the adaptive layout's main column.
pub const MAIN_MIN: u16 = 70;

/// Share of the viewport given to the adaptive layout's side slot.
pub const SIDE_PERCENT: u16 = 40;

/// Height of the memory panel.
pub const MEMORY_HEIGHT: u16 = 3;

/// Length asked for by the disk panel.
pub const DISK_LEN: u16 = 10;

/// Height of the small swappable slot in the adaptive layout.
pub const SMALL_SLOT_HEIGHT: u16 = 5;

/// Height of the network panel in the fixed layout.
pub const FIXED_NETWORK_HEIGHT: u16 = 3;

/// Share of the disk area given to disk usage in the fixed layout.
pub const DISK_USAGE_PERCENT: u16 = 40;

/// Share of the disk area given to disk processes in the fixed layout.
pub const DISK_PROCESSES_PERCENT: u16 = 60;

/// The five logical content units of the dashboard.
#[derive(Clone, Copy, PartialEq, Eq, Structural, Debug)]
pub enum Panel {
    CpuUsage,
    MemoryUsage,
    DiskUsage,
    DiskProcesses,
    NetworkActivity,
}

/// Which layout topology the engine uses: a single static tree, or one that
/// switches with the viewport's orientation.
#[derive(Clone, Copy, PartialEq, Eq, Structural, Debug)]
pub enum LayoutMode {
    Fixed,
    Adaptive,
}

/// Why a layout could not be resolved.
#[derive(Clone, Copy, PartialEq, Eq, Structural, Debug)]
pub enum LayoutError {
    /// The viewport has a zero dimension.
    DegenerateViewport,
    /// A content-driven slot was given no size hint: a wiring bug.
    MissingSizeHint,
}

/// Per-panel content sizes (line counts), measured afresh every tick. A
/// panel whose slot is content-driven must have its hint present.
#[derive(Clone, Copy, PartialEq, Eq, Structural, Debug)]
pub struct PanelSizes {
    pub cpu: Option<usize>,
    pub memory: Option<usize>,
    pub disk: Option<usize>,
    pub disk_processes: Option<usize>,
    pub network: Option<usize>,
}

impl PanelSizes {
    /// The recorded content size of one panel.
    pub fn hint_for(&self, p: Panel) -> (r: Option<usize>)
        ensures
            r == match p {
                Panel::CpuUsage => self.cpu,
                Panel::MemoryUsage => self.memory,
                Panel::DiskUsage => self.disk,
                Panel::DiskProcesses => self.disk_processes,
                Panel::NetworkActivity => self.network,
            },
    {
        match p {
            Panel::CpuUsage => self.cpu,
            Panel::MemoryUsage => self.memory,
            Panel::DiskUsage => self.disk,
            Panel::DiskProcesses => self.disk_processes,
            Panel::NetworkActivity => self.network,
        }
    }
}

/// One tick's collected metrics: the five text collections the panels show.
/// Recreated every tick; the layout engine only reads their sizes.
pub struct MetricsSnapshot {
    pub cpu_lines: Vec<String>,
    pub memory_line: String,
    pub disk_lines: Vec<String>,
    pub disk_process_lines: Vec<String>,
    pub network_lines: Vec<String>,
}

impl MetricsSnapshot {
    /// The content sizes the layout engine negotiates with: one hint per
    /// panel, measured from this snapshot. The memory panel always shows a
    /// single line.
    pub fn size_hints(&self) -> (r: PanelSizes)
        ensures
            r.cpu == Some(self.cpu_lines@.len() as usize),
            r.memory == Some(1usize),
            r.disk == Some(self.disk_lines@.len() as usize),
            r.disk_processes == Some(self.disk_process_lines@.len() as usize),
            r.network == Some(self.network_lines@.len() as usize),
    {
        PanelSizes {
            cpu: Some(self.cpu_lines.len()),
            memory: Some(1),
            disk: Some(self.disk_lines.len()),
            disk_processes: Some(self.disk_process_lines.len()),
            network: Some(self.network_lines.len()),
        }
    }
}

/// One tick's result: the region each panel paints into.
#[derive(Clone, Copy, PartialEq, Eq, Structural, Debug)]
pub struct RegionAssignment {
    pub cpu: Region,
    pub memory: Region,
    pub disk: Region,
    pub disk_processes: Region,
    pub network: Region,
}

impl RegionAssignment {
    /// The region assigned to one panel.
    pub fn region_of(&self, p: Panel) -> (r: Region)
        ensures
            r == match p {
                Panel::CpuUsage => self.cpu,
                Panel::MemoryUsage => self.memory,
                Panel::DiskUsage => self.disk,
                Panel::DiskProcesses => self.disk_processes,
                Panel::NetworkActivity => self.network,
            },
    {
        match p {
            Panel::CpuUsage => self.cpu,
            Panel::MemoryUsage => self.memory,
            Panel::DiskUsage => self.disk,
            Panel::DiskProcesses => self.disk_processes,
            Panel::NetworkActivity => self.network,
        }
    }
}

/// Split direction of the adaptive layout's outer tree: stacked in portrait,
/// side by side in landscape.
pub open spec fn outer_dir(o: Orientation) -> Direction {
    match o {
        Orientation::Portrait => Direction::Vertical,
        Orientation::Landscape => Direction::Horizontal,
    }
}

/// Outer slots of the adaptive layout: the main column and the side slot.
pub open spec fn adaptive_outer_slots() -> Seq<SlotConstraint> {
    seq![
        SlotConstraint::Min(MAIN_MIN),
        SlotConstraint::Percentage(SIDE_PERCENT),
    ]
}

/// Inner slots of the adaptive layout's main column: CPU, memory, disk, and
/// the small swappable slot. The disk slot is exact in portrait and
/// flexible in landscape.
pub open spec fn adaptive_inner_slots(o: Orientation) -> Seq<SlotConstraint> {
    seq![
        SlotConstraint::ContentDriven { group: CPU_GROUP_SIZE, chrome: PANEL_CHROME },
        SlotConstraint::Fixed(MEMORY_HEIGHT),
        match o {
            Orientation::Portrait => SlotConstraint::Fixed(DISK_LEN),
            Orientation::Landscape => SlotConstraint::Min(DISK_LEN),
        },
        SlotConstraint::Fixed(SMALL_SLOT_HEIGHT),
    ]
}

/// Outer slots of the fixed layout: CPU, memory, the disk area and network.
pub open spec fn fixed_outer_slots() -> Seq<SlotConstraint> {
    seq![
        SlotConstraint::ContentDriven { group: CPU_GROUP_SIZE, chrome: PANEL_CHROME },
        SlotConstraint::Fixed(MEMORY_HEIGHT),
        SlotConstraint::Min(DISK_LEN),
        SlotConstraint::Fixed(FIXED_NETWORK_HEIGHT),
    ]
}

/// Slots of the fixed layout's disk area: disk usage beside disk processes.
pub open spec fn fixed_disk_slots() -> Seq<SlotConstraint> {
    seq![
        SlotConstraint::Percentage(DISK_USAGE_PERCENT),
        SlotConstraint::Percentage(DISK_PROCESSES_PERCENT),
    ]
}

pub open spec fn full_region_of(v: Viewport) -> Region {
    Region { x: 0, y: 0, width: v.width, height: v.height }
}

/// The outer regions of the adaptive layout for a viewport.
pub open spec fn adaptive_outer_regions(v: Viewport) -> Seq<Region> {
    spec_split(
        full_region_of(v),
        outer_dir(spec_orientation(v)),
        adaptive_outer_slots(),
        seq![0usize, 0usize],
    )
}

/// The inner regions of the adaptive layout's main column.
pub open spec fn adaptive_inner_regions(v: Viewport, cpu_hint: usize) -> Seq<Region> {
    spec_split(
        adaptive_outer_regions(v)[0],
        Direction::Vertical,
        adaptive_inner_slots(spec_orientation(v)),
        seq![cpu_hint, 0usize, 0usize, 0usize],
    )
}

/// The adaptive layout's panel assignment: CPU, memory and disk always fill
/// the top of the main column; the small fourth slot and the outer side
/// slot hold disk processes and network activity, swapped by orientation so
/// that the longer list gets the larger, proportional slot.
pub open spec fn spec_adaptive_assignment(v: Viewport, cpu_hint: usize) -> RegionAssignment {
    let outer = adaptive_outer_regions(v);
    let inner = adaptive_inner_regions(v, cpu_hint);
    match spec_orientation(v) {
        Orientation::Portrait => RegionAssignment {
            cpu: inner[0],
            memory: inner[1],
            disk: inner[2],
            disk_processes: inner[3],
            network: outer[1],
        },
        Orientation::Landscape => RegionAssignment {
            cpu: inner[0],
            memory: inner[1],
            disk: inner[2],
            network: inner[3],
            disk_processes: outer[1],
        },
    }
}

/// The fixed layout's outer regions.
pub open spec fn fixed_outer_regions(v: Viewport, cpu_hint: usize) -> Seq<Region> {
    spec_split(
        full_region_of(v),
        Direction::Vertical,
        fixed_outer_slots(),
        seq![cpu_hint, 0usize, 0usize, 0usize],
    )
}

/// The fixed layout's disk-area regions.
pub open spec fn fixed_disk_regions(v: Viewport, cpu_hint: usize) -> Seq<Region> {
    spec_split(
        fixed_outer_regions(v, cpu_hint)[2],
        Direction::Horizontal,
        fixed_disk_slots(),
        seq![0usize, 0usize],
    )
}

/// The fixed layout's panel assignment.
pub open spec fn spec_fixed_assignment(v: Viewport, cpu_hint: usize) -> RegionAssignment {
    let outer = fixed_outer_regions(v, cpu_hint);
    let disk = fixed_disk_regions(v, cpu_hint);
    RegionAssignment {
        cpu: outer[0],
        memory: outer[1],
        disk: disk[0],
        disk_processes: disk[1],
        network: outer[3],
    }
}

/// What `resolve` returns, for every input.
pub open spec fn spec_resolve(mode: LayoutMode, v: Viewport, sizes: PanelSizes) -> Result<
    RegionAssignment,
    LayoutError,
> {
    if v.width == 0 || v.height == 0 {
        Err(LayoutError::DegenerateViewport)
    } else if sizes.cpu is None {
        Err(LayoutError::MissingSizeHint)
    } else {
        match mode {
            LayoutMode::Adaptive => Ok(spec_adaptive_assignment(v, sizes.cpu->0)),
            LayoutMode::Fixed => Ok(spec_fixed_assignment(v, sizes.cpu->0)),
        }
    }
}

fn build_adaptive_outer() -> (r: (Vec<SlotConstraint>, Vec<usize>))
    ensures
        r.0@ == adaptive_outer_slots(),
        r.1@ == seq![0usize, 0usize],
{
    let mut cs: Vec<SlotConstraint> = Vec::new();
    cs.push(SlotConstraint::Min(MAIN_MIN));
    cs.push(SlotConstraint::Percentage(SIDE_PERCENT));
    let mut hints: Vec<usize> = Vec::new();
    hints.push(0);
    hints.push(0);
    proof {
        assert(cs@ =~= adaptive_outer_slots());
        assert(hints@ =~= seq![0usize, 0usize]);
    }
    (cs, hints)
}

fn build_adaptive_inner(o: Orientation, cpu_hint: usize) -> (r: (Vec<SlotConstraint>, Vec<usize>))
    ensures
        r.0@ == adaptive_inner_slots(o),
        r.1@ == seq![cpu_hint, 0usize, 0usize, 0usize],
{
    let mut cs: Vec<SlotConstraint> = Vec::new();
    cs.push(SlotConstraint::ContentDriven { group: CPU_GROUP_SIZE, chrome: PANEL_CHROME });
    cs.push(SlotConstraint::Fixed(MEMORY_HEIGHT));
    match o {
        Orientation::Portrait => cs.push(SlotConstraint::Fixed(DISK_LEN)),
        Orientation::Landscape => cs.push(SlotConstraint::Min(DISK_LEN)),
    }
    cs.push(SlotConstraint::Fixed(SMALL_SLOT_HEIGHT));
    let mut hints: Vec<usize> = Vec::new();
    hints.push(cpu_hint);
    hints.push(0);
    hints.push(0);
    hints.push(0);
    proof {
        assert(cs@ =~= adaptive_inner_slots(o));
        assert(hints@ =~= seq![cpu_hint, 0usize, 0usize, 0usize]);
    }
    (cs, hints)
}

fn build_fixed_outer(cpu_hint: usize) -> (r: (Vec<SlotConstraint>, Vec<usize>))
    ensures
        r.0@ == fixed_outer_slots(),
        r.1@ == seq![cpu_hint, 0usize, 0usize, 0usize],
{
    let mut cs: Vec<SlotConstraint> = Vec::new();
    cs.push(SlotConstraint::ContentDriven { group: CPU_GROUP_SIZE, chrome: PANEL_CHROME });
    cs.push(SlotConstraint::Fixed(MEMORY_HEIGHT));
    cs.push(SlotConstraint::Min(DISK_LEN));
    cs.push(SlotConstraint::Fixed(FIXED_NETWORK_HEIGHT));
    let mut hints: Vec<usize> = Vec::new();
    hints.push(cpu_hint);
    hints.push(0);
    hints.push(0);
    hints.push(0);
    proof {
        assert(cs@ =~= fixed_outer_slots());
        assert(hints@ =~= seq![cpu_hint, 0usize, 0usize, 0usize]);
    }
    (cs, hints)
}

fn build_fixed_disk() -> (r: (Vec<SlotConstraint>, Vec<usize>))
    ensures
        r.0@ == fixed_disk_slots(),
        r.1@ == seq![0usize, 0usize],
{
    let mut cs: Vec<SlotConstraint> = Vec::new();
    cs.push(SlotConstraint::Percentage(DISK_USAGE_PERCENT));
    cs.push(SlotConstraint::Percentage(DISK_PROCESSES_PERCENT));
    let mut hints: Vec<usize> = Vec::new();
    hints.push(0);
    hints.push(0);
    proof {
        assert(cs@ =~= fixed_disk_slots());
        assert(hints@ =~= seq![0usize, 0usize]);
    }
    (cs, hints)
}

/// Resolves one tick's layout: partitions the viewport into disjoint
/// regions and assigns one to every panel.
///
/// Fails with `DegenerateViewport` exactly when the viewport has a zero
/// dimension, and with `MissingSizeHint` exactly when the CPU panel — the
/// one content-driven slot of both trees — has no size hint. On success the
/// assignment is the pure function `spec_resolve` of the inputs alone.
pub fn resolve(mode: LayoutMode, v: Viewport, sizes: &PanelSizes) -> (r: Result<
    RegionAssignment,
    LayoutError,
>)
    ensures
        r == spec_resolve(mode, v, *sizes),
        r is Err <==> (v.width == 0 || v.height == 0 || sizes.cpu is None),
        (v.width == 0 || v.height == 0) <==> r == Err::<RegionAssignment, LayoutError>(
            LayoutError::DegenerateViewport,
        ),
        (v.width > 0 && v.height > 0 && sizes.cpu is None) <==> r == Err::<
            RegionAssignment,
            LayoutError,
        >(LayoutError::MissingSizeHint),
{
    if v.width == 0 || v.height == 0 {
        return Err(LayoutError::DegenerateViewport);
    }
    let cpu_hint: usize = match sizes.cpu {
        Some(h) => h,
        None => {
            return Err(LayoutError::MissingSizeHint);
        },
    };
    let full = v.full_region();
    match mode {
        LayoutMode::Adaptive => {
            let o = crate::geometry::orientation_of(v);
            let dir = match o {
                Orientation::Portrait => Direction::Vertical,
                Orientation::Landscape => Direction::Horizontal,
            };
            let (outer_cs, outer_hints) = build_adaptive_outer();
            let outer = split_region(full, dir, &outer_cs, &outer_hints);
            proof {
                lemma_split_in_parent(full, dir, outer_cs@, outer_hints@);
            }
            let main = outer[0];
            let side = outer[1];
            let (inner_cs, inner_hints) = build_adaptive_inner(o, cpu_hint);
            let inner = split_region(main, Direction::Vertical, &inner_cs, &inner_hints);
            let a = match o {
                Orientation::Portrait => RegionAssignment {
                    cpu: inner[0],
                    memory: inner[1],
                    disk: inner[2],
                    disk_processes: inner[3],
                    network: side,
                },
                Orientation::Landscape => RegionAssignment {
                    cpu: inner[0],
                    memory: inner[1],
                    disk: inner[2],
                    network: inner[3],
                    disk_processes: side,
                },
            };
            Ok(a)
        },
        LayoutMode::Fixed => {
            let (outer_cs, outer_hints) = build_fixed_outer(cpu_hint);
            let outer = split_region(full, Direction::Vertical, &outer_cs, &outer_hints);
            proof {
                lemma_split_in_parent(full, Direction::Vertical, outer_cs@, outer_hints@);
            }
            let disk_area = outer[2];
            let (disk_cs, disk_hints) = build_fixed_disk();
            let disks = split_region(disk_area, Direction::Horizontal, &disk_cs, &disk_hints);
            Ok(
                RegionAssignment {
                    cpu: outer[0],
                    memory: outer[1],
                    disk: disks[0],
                    disk_processes: disks[1],
                    network: outer[3],
                },
            )
        },
    }
}

/// Determinism: resolving a layout is a pure function of its inputs — two
/// resolutions of identical inputs yield identical region mappings.
pub proof fn lemma_resolve_deterministic(
    mode: LayoutMode,
    v: Viewport,
    sizes: PanelSizes,
    r1: Result<RegionAssignment, LayoutError>,
    r2: Result<RegionAssignment, LayoutError>,
)
    requires
        r1 == spec_resolve(mode, v, sizes),
        r2 == spec_resolve(mode, v, sizes),
    ensures
        r1 == r2,
{
}

/// The tiling invariant, instantiated for the adaptive layout: the outer
/// regions exactly tile the viewport along the outer axis, and the inner
/// regions exactly tile the main column top to bottom.
pub proof fn lemma_adaptive_regions_tile(v: Viewport, cpu_hint: usize)
    ensures
        crate::split::tiles(
            full_region_of(v),
            outer_dir(spec_orientation(v)),
            adaptive_outer_regions(v),
        ),
        crate::split::tiles(
            adaptive_outer_regions(v)[0],
            Direction::Vertical,
            adaptive_inner_regions(v, cpu_hint),
        ),
{
    let full = full_region_of(v);
    let dir = outer_dir(spec_orientation(v));
    crate::split::lemma_split_tiles(full, dir, adaptive_outer_slots(), seq![0usize, 0usize]);
    lemma_split_in_parent(full, dir, adaptive_outer_slots(), seq![0usize, 0usize]);
    let main = adaptive_outer_regions(v)[0];
    crate::split::lemma_split_tiles(
        main,
        Direction::Vertical,
        adaptive_inner_slots(spec_orientation(v)),
        seq![cpu_hint, 0usize, 0usize, 0usize],
    );
}

/// The tiling invariant, instantiated for the fixed layout: the outer
/// regions exactly tile the viewport top to bottom, and the disk area's two
/// regions exactly tile it side by side.
pub proof fn lemma_fixed_regions_tile(v: Viewport, cpu_hint: usize)
    ensures
        crate::split::tiles(
            full_region_of(v),
            Direction::Vertical,
            fixed_outer_regions(v, cpu_hint),
        ),
        crate::split::tiles(
            fixed_outer_regions(v, cpu_hint)[2],
            Direction::Horizontal,
            fixed_disk_regions(v, cpu_hint),
        ),
{
    let full = full_region_of(v);
    let hints = seq![cpu_hint, 0usize, 0usize, 0usize];
    crate::split::lemma_split_tiles(full, Direction::Vertical, fixed_outer_slots(), hints);
    lemma_split_in_parent(full, Direction::Vertical, fixed_outer_slots(), hints);
    crate::split::lemma_split_tiles(
        fixed_outer_regions(v, cpu_hint)[2],
        Direction::Horizontal,
        fixed_disk_slots(),
        seq![0usize, 0usize],
    );
}

/// The space the main column's exact slots ask for together: the CPU
/// panel's content-driven height, the fixed memory and small slots, and in
/// portrait also the fixed disk slot.
pub open spec fn adaptive_exact_demand(o: Orientation, cpu_hint: int) -> int {
    crate::constraints::content_len(cpu_hint, CPU_GROUP_SIZE as int, PANEL_CHROME as int)
        + MEMORY_HEIGHT as int + SMALL_SLOT_HEIGHT as int + match o {
        Orientation::Portrait => DISK_LEN as int,
        Orientation::Landscape => 0,
    }
}

/// Content-driven scaling: whenever the main column is tall enough for its
/// exact slots, the CPU region's height is exactly `ceil(hint / group) +
/// chrome`, and the memory slot keeps its fixed height.
pub proof fn lemma_cpu_height_when_it_fits(v: Viewport, sizes: PanelSizes)
    requires
        v.width > 0,
        v.height > 0,
        sizes.cpu is Some,
        adaptive_exact_demand(spec_orientation(v), sizes.cpu->0 as int) <= adaptive_outer_regions(
            v,
        )[0].height,
    ensures
        ({
            let a = spec_resolve(LayoutMode::Adaptive, v, sizes)->Ok_0;
            &&& a.cpu.height == crate::constraints::content_len(
                sizes.cpu->0 as int,
                CPU_GROUP_SIZE as int,
                PANEL_CHROME as int,
            )
            &&& a.memory.height == MEMORY_HEIGHT
        }),
{
    let o = spec_orientation(v);
    let hint = sizes.cpu->0;
    let main = adaptive_outer_regions(v)[0];
    let total = main.height as int;
    let cs = adaptive_inner_slots(o);
    let hints = seq![hint, 0usize, 0usize, 0usize];
    let c = crate::constraints::content_len(hint as int, CPU_GROUP_SIZE as int, PANEL_CHROME as int);
    assert(hint as int / (CPU_GROUP_SIZE as int) >= 0) by {
        vstd::arithmetic::div_mod::lemma_div_pos_is_pos(hint as int, CPU_GROUP_SIZE as int);
    }
    assert(crate::constraints::slots_wf(cs)) by {
        assert(forall|i: int|
            0 <= i < cs.len() ==> crate::constraints::slot_wf(#[trigger] cs[i]));
    }
    let d0 = crate::constraints::class_desired_prefix(cs, hints, total, 0, 4);
    assert(crate::constraints::desired(cs[0], total, hint as int) == c);
    assert(d0 <= total) by {
        reveal_with_fuel(crate::constraints::class_desired_prefix, 5);
    }
    crate::constraints::lemma_exact_when_fits(cs, hints, total, 0);
    crate::constraints::lemma_exact_when_fits(cs, hints, total, 1);
    match o {
        Orientation::Portrait => {
            assert(crate::constraints::absorber(cs) == 3) by {
                reveal_with_fuel(crate::constraints::first_min_from, 6);
            }
        },
        Orientation::Landscape => {
            assert(crate::constraints::absorber(cs) == 2) by {
                reveal_with_fuel(crate::constraints::first_min_from, 6);
            }
        },
    }
}

/// The orientation switch: between the two adaptive topologies only the
/// occupants of the small fourth slot and of the outer side slot swap —
/// disk processes take the small slot in portrait, network activity takes
/// it in landscape — while CPU, memory and disk keep their order, stacked
/// adjacently from the top of the main column.
pub proof fn lemma_orientation_swap(v: Viewport, sizes: PanelSizes)
    requires
        v.width > 0,
        v.height > 0,
        sizes.cpu is Some,
    ensures
        ({
            let a = spec_resolve(LayoutMode::Adaptive, v, sizes)->Ok_0;
            let inner = adaptive_inner_regions(v, sizes.cpu->0);
            let outer = adaptive_outer_regions(v);
            &&& spec_resolve(LayoutMode::Adaptive, v, sizes) is Ok
            &&& a.cpu == inner[0]
            &&& a.memory == inner[1]
            &&& a.disk == inner[2]
            &&& spec_orientation(v) is Portrait ==> a.disk_processes == inner[3] && a.network
                == outer[1]
            &&& spec_orientation(v) is Landscape ==> a.network == inner[3] && a.disk_processes
                == outer[1]
            &&& a.cpu.y == inner[0].y && a.memory.y == a.cpu.y + a.cpu.height && a.disk.y
                == a.memory.y + a.memory.height
        }),
{
    let hint = sizes.cpu->0;
    lemma_adaptive_regions_tile(v, hint);
    let inner = adaptive_inner_regions(v, hint);
    let i0: int = 0;
    assert(inner[i0 + 1].y == inner[i0].y + inner[i0].height);
    let i1: int = 1;
    assert(inner[i1 + 1].y == inner[i1].y + inner[i1].height);
}

} // verus!
