use termdash::engine::{resolve, LayoutError, LayoutMode, Panel, PanelSizes, RegionAssignment};
use termdash::geometry::{orientation_of, Orientation, Region, Viewport};

fn sizes_with_cpu(cpu: usize) -> PanelSizes {
    PanelSizes {
        cpu: Some(cpu),
        memory: Some(1),
        disk: Some(2),
        disk_processes: Some(3),
        network: Some(1),
    }
}

fn region(x: u16, y: u16, width: u16, height: u16) -> Region {
    Region { x, y, width, height }
}

#[test]
fn orientation_classification() {
    assert_eq!(
        orientation_of(Viewport { width: 80, height: 24 }),
        Orientation::Landscape
    );
    assert_eq!(
        orientation_of(Viewport { width: 24, height: 80 }),
        Orientation::Portrait
    );
    assert_eq!(
        orientation_of(Viewport { width: 50, height: 50 }),
        Orientation::Landscape
    );
}

#[test]
fn degenerate_viewport_zero_width() {
    let r = resolve(
        LayoutMode::Adaptive,
        Viewport { width: 0, height: 24 },
        &sizes_with_cpu(8),
    );
    assert_eq!(r, Err(LayoutError::DegenerateViewport));
}

#[test]
fn degenerate_viewport_zero_height() {
    let r = resolve(
        LayoutMode::Adaptive,
        Viewport { width: 80, height: 0 },
        &sizes_with_cpu(8),
    );
    assert_eq!(r, Err(LayoutError::DegenerateViewport));
    let rf = resolve(
        LayoutMode::Fixed,
        Viewport { width: 80, height: 0 },
        &sizes_with_cpu(8),
    );
    assert_eq!(rf, Err(LayoutError::DegenerateViewport));
}

#[test]
fn missing_size_hint_fails() {
    let sizes = PanelSizes {
        cpu: None,
        memory: Some(1),
        disk: Some(2),
        disk_processes: Some(3),
        network: Some(1),
    };
    let r = resolve(
        LayoutMode::Adaptive,
        Viewport { width: 80, height: 24 },
        &sizes,
    );
    assert_eq!(r, Err(LayoutError::MissingSizeHint));
}

#[test]
fn resolve_is_deterministic() {
    let v = Viewport { width: 97, height: 41 };
    let sizes = sizes_with_cpu(12);
    let r1 = resolve(LayoutMode::Adaptive, v, &sizes);
    let r2 = resolve(LayoutMode::Adaptive, v, &sizes);
    assert_eq!(r1, r2);
    let f1 = resolve(LayoutMode::Fixed, v, &sizes);
    let f2 = resolve(LayoutMode::Fixed, v, &sizes);
    assert_eq!(f1, f2);
}

#[test]
fn cpu_region_height_scales_with_core_count() {
    // ceil(cores / 5) + 2 rows: 1, 4 and 5 cores need one row, 6 and 10
    // need two.
    let v = Viewport { width: 100, height: 40 };
    let expected = [(1usize, 3u16), (4, 3), (5, 3), (6, 4), (10, 4)];
    for (cores, height) in expected {
        let a = resolve(LayoutMode::Adaptive, v, &sizes_with_cpu(cores)).unwrap();
        assert_eq!(a.cpu.height, height, "core count {}", cores);
    }
}

#[test]
fn orientation_swap_landscape_vs_portrait() {
    let sizes = sizes_with_cpu(8);
    let land = resolve(
        LayoutMode::Adaptive,
        Viewport { width: 80, height: 24 },
        &sizes,
    )
    .unwrap();
    // Landscape: network takes the small fourth slot of the main column,
    // disk processes take the outer side column.
    assert_eq!(land.cpu, region(0, 0, 48, 4));
    assert_eq!(land.memory, region(0, 4, 48, 3));
    assert_eq!(land.disk, region(0, 7, 48, 12));
    assert_eq!(land.network, region(0, 19, 48, 5));
    assert_eq!(land.disk_processes, region(48, 0, 32, 24));

    let port = resolve(
        LayoutMode::Adaptive,
        Viewport { width: 24, height: 80 },
        &sizes,
    )
    .unwrap();
    // Portrait: disk processes take the small slot (grown by the remainder,
    // as the portrait main column has no flexible slot), network moves to
    // the outer slot below.
    assert_eq!(port.cpu, region(0, 0, 24, 4));
    assert_eq!(port.memory, region(0, 4, 24, 3));
    assert_eq!(port.disk, region(0, 7, 24, 10));
    assert_eq!(port.disk_processes, region(0, 17, 24, 31));
    assert_eq!(port.network, region(0, 48, 24, 32));

    // CPU, memory and disk keep their relative order in both orientations.
    assert!(land.cpu.y < land.memory.y && land.memory.y < land.disk.y);
    assert!(port.cpu.y < port.memory.y && port.memory.y < port.disk.y);
}

#[test]
fn overflow_shrinks_min_before_fixed() {
    // Main column height 10 cannot hold CPU 4 + memory 3 + network 5: the
    // flexible disk slot drops to zero first, exact slots are cut only
    // after that, and nothing goes negative.
    let a = resolve(
        LayoutMode::Adaptive,
        Viewport { width: 80, height: 10 },
        &sizes_with_cpu(8),
    )
    .unwrap();
    assert_eq!(a.cpu.height, 4);
    assert_eq!(a.memory.height, 3);
    assert_eq!(a.disk.height, 0);
    assert_eq!(a.network.height, 3);
    let total: u16 = a.cpu.height + a.memory.height + a.disk.height + a.network.height;
    assert_eq!(total, 10);
}

#[test]
fn end_to_end_landscape_scenario() {
    // Viewport 100x40, 8 CPU cores, one memory line, 2 disk lines, 3
    // disk-process lines, 1 network line.
    let sizes = PanelSizes {
        cpu: Some(8),
        memory: Some(1),
        disk: Some(2),
        disk_processes: Some(3),
        network: Some(1),
    };
    let v = Viewport { width: 100, height: 40 };
    assert_eq!(orientation_of(v), Orientation::Landscape);
    let a = resolve(LayoutMode::Adaptive, v, &sizes).unwrap();
    assert_eq!(a.cpu, region(0, 0, 60, 4));
    assert_eq!(a.memory, region(0, 4, 60, 3));
    // The disk slot's Min(10) absorbs the rest of the main column.
    assert_eq!(a.disk, region(0, 7, 60, 28));
    assert_eq!(a.network, region(0, 35, 60, 5));
    // Disk processes span the full height of the outer 40% column.
    assert_eq!(a.disk_processes, region(60, 0, 40, 40));
    // The main column tiles exactly.
    assert_eq!(
        a.cpu.height + a.memory.height + a.disk.height + a.network.height,
        40
    );
}

#[test]
fn fixed_mode_layout() {
    let a = resolve(
        LayoutMode::Fixed,
        Viewport { width: 100, height: 40 },
        &sizes_with_cpu(8),
    )
    .unwrap();
    assert_eq!(a.cpu, region(0, 0, 100, 4));
    assert_eq!(a.memory, region(0, 4, 100, 3));
    // The disk area takes the leftover, split 40/60 between usage and
    // processes.
    assert_eq!(a.disk, region(0, 7, 40, 30));
    assert_eq!(a.disk_processes, region(40, 7, 60, 30));
    assert_eq!(a.network, region(0, 37, 100, 3));
}

#[test]
fn tiny_viewport_still_tiles() {
    let a = resolve(
        LayoutMode::Adaptive,
        Viewport { width: 1, height: 1 },
        &sizes_with_cpu(1),
    )
    .unwrap();
    let heights: u16 = a.cpu.height + a.memory.height + a.disk.height + a.network.height;
    assert_eq!(heights, 1);
}

#[test]
fn regions_tile_across_many_viewports() {
    // The resolved regions leave no gap and claim no extra space, whatever
    // the viewport and core count.
    for w in [1u16, 5, 24, 80, 100, 250] {
        for h in [1u16, 10, 24, 40, 200] {
            for cores in [0usize, 1, 8, 33] {
                let v = Viewport {
                    width: w,
                    height: h,
                };
                let a = resolve(LayoutMode::Adaptive, v, &sizes_with_cpu(cores)).unwrap();
                let landscape = orientation_of(v) == Orientation::Landscape;
                let (small, side) = if landscape {
                    (a.network, a.disk_processes)
                } else {
                    (a.disk_processes, a.network)
                };
                // The main column tiles vertically: each region starts
                // where the previous one ends.
                assert_eq!(a.cpu.y, 0);
                assert_eq!(a.memory.y, a.cpu.y + a.cpu.height);
                assert_eq!(a.disk.y, a.memory.y + a.memory.height);
                assert_eq!(small.y, a.disk.y + a.disk.height);
                let column = a.cpu.height + a.memory.height + a.disk.height + small.height;
                if landscape {
                    assert_eq!(column, h, "w={} h={} cores={}", w, h, cores);
                    assert_eq!(a.cpu.width + side.width, w);
                    assert_eq!(side.height, h);
                } else {
                    assert_eq!(column + side.height, h, "w={} h={} cores={}", w, h, cores);
                    assert_eq!(a.cpu.width, w);
                    assert_eq!(side.width, w);
                }
            }
        }
    }
}

#[test]
fn region_of_maps_each_panel() {
    let a = resolve(
        LayoutMode::Adaptive,
        Viewport { width: 100, height: 40 },
        &sizes_with_cpu(8),
    )
    .unwrap();
    assert_eq!(a.region_of(Panel::CpuUsage), a.cpu);
    assert_eq!(a.region_of(Panel::MemoryUsage), a.memory);
    assert_eq!(a.region_of(Panel::DiskUsage), a.disk);
    assert_eq!(a.region_of(Panel::DiskProcesses), a.disk_processes);
    assert_eq!(a.region_of(Panel::NetworkActivity), a.network);
}

#[test]
fn hint_for_reads_each_panel() {
    let sizes = sizes_with_cpu(8);
    assert_eq!(sizes.hint_for(Panel::CpuUsage), Some(8));
    assert_eq!(sizes.hint_for(Panel::MemoryUsage), Some(1));
    assert_eq!(sizes.hint_for(Panel::DiskUsage), Some(2));
    assert_eq!(sizes.hint_for(Panel::DiskProcesses), Some(3));
    assert_eq!(sizes.hint_for(Panel::NetworkActivity), Some(1));
}

#[test]
fn assignment_equality_is_structural() {
    let a = RegionAssignment {
        cpu: region(0, 0, 1, 1),
        memory: region(0, 1, 1, 1),
        disk: region(0, 2, 1, 1),
        disk_processes: region(0, 3, 1, 1),
        network: region(0, 4, 1, 1),
    };
    assert_eq!(a, a);
}
