use coordinator::gpu_order::sort_gpus;
use coordinator::inventory::GpuInventory;
use coordinator::matching::assign_all_rows;

fn gpu(id: &str, vram: u64) -> GpuInventory {
    GpuInventory {
        gpu_id: id.to_string(),
        model: None,
        healthy: Some(true),
        available_vram_bytes: Some(vram),
    }
}

#[test]
fn gpus_sort_by_id_and_keep_report_order_among_equal_ids() {
    let input = vec![gpu("gpu-b", 1), gpu("gpu-a", 2), gpu("gpu-b", 3), gpu("gpu-a", 4)];
    let sorted = sort_gpus(&input);
    let seen: Vec<(&str, u64)> =
        sorted.iter().map(|g| (g.gpu_id.as_str(), g.available_vram_bytes.unwrap())).collect();
    assert_eq!(seen, vec![("gpu-a", 2), ("gpu-a", 4), ("gpu-b", 1), ("gpu-b", 3)]);
    // sorting a sorted list gives it back
    assert_eq!(sort_gpus(&sorted), sorted);
    assert!(sort_gpus(&Vec::new()).is_empty());
}

#[test]
fn every_row_gets_a_distinct_column_when_one_exists() {
    // row 0 can take only column 0; row 1 columns 0 and 1: augmenting works
    let adj = vec![vec![true, true], vec![true, false]];
    assert_eq!(assign_all_rows(&adj, 2), Ok(()));
    assert_eq!(assign_all_rows(&Vec::new(), 0), Ok(()));
}

#[test]
fn the_first_row_that_cannot_be_placed_is_named() {
    // rows 0 and 1 both need column 0
    let adj = vec![vec![true, false], vec![true, false], vec![false, true]];
    assert_eq!(assign_all_rows(&adj, 2), Err(1));
    let adj = vec![vec![false]];
    assert_eq!(assign_all_rows(&adj, 1), Err(0));
}
