use hostprobe::schedule::run_schedule;
use hostprobe::schedule::wave_bounds;

#[test]
fn waves_tile_the_input() {
    let waves = wave_bounds(10, 3);
    assert_eq!(waves, vec![(0, 3), (3, 6), (6, 9), (9, 10)]);
}

#[test]
fn full_width_is_a_single_wave() {
    assert_eq!(wave_bounds(2, 2), vec![(0, 2)]);
    assert_eq!(wave_bounds(3, 100), vec![(0, 3)]);
}

#[test]
fn width_one_is_sequential() {
    let waves = wave_bounds(5, 1);
    assert_eq!(waves.len(), 5);
    for (i, w) in waves.iter().enumerate() {
        assert_eq!(*w, (i, i + 1));
    }
}

#[test]
fn no_items_no_waves() {
    assert!(wave_bounds(0, 4).is_empty());
}

#[test]
fn schedule_yields_one_result_per_item() {
    let items: Vec<u64> = (0..7).collect();
    let results = run_schedule(&items, 3, |x: &u64| x * 2);
    assert_eq!(results, vec![0, 2, 4, 6, 8, 10, 12]);
}

#[test]
fn schedule_absorbs_failures_into_results() {
    let items = vec!["ok".to_string(), "bad".to_string(), "ok".to_string()];
    let results = run_schedule(&items, 2, |s: &String| {
        if s == "bad" {
            Err("rejected".to_string())
        } else {
            Ok(s.clone())
        }
    });
    assert_eq!(results.len(), items.len());
    assert!(results[0].is_ok());
    assert!(results[1].is_err());
    assert!(results[2].is_ok());
}

#[test]
fn schedule_of_nothing_is_empty() {
    let items: Vec<u8> = Vec::new();
    let results = run_schedule(&items, 5, |x: &u8| *x);
    assert!(results.is_empty());
}
