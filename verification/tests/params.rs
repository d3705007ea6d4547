use phrtf_distance_proximity::params::{
    param, params, PARAM_COUNT, PARAM_TICKS_PER_UNIT, P_AZIMUTH, P_DISTANCE, P_EAR_OFFSET,
    P_EN_PROXIMITY, P_HEAD_RADIUS, P_N1_FRONT, P_P2,
};

#[test]
fn params_are_contiguous_and_unique() {
    for (i, p) in params().iter().enumerate() {
        assert_eq!(p.id, i as u32, "param ids must be contiguous from 0");
    }
    assert_eq!(params().len(), 17);
}

#[test]
fn every_param_default_is_in_range() {
    for d in params() {
        assert!(
            d.default >= d.min && d.default <= d.max,
            "param {} default {} out of [{}, {}]",
            d.id,
            d.default,
            d.min,
            d.max,
        );
        assert!(d.min < d.max, "param {} has empty range", d.id);
    }
}

#[test]
fn lookup_past_the_table_finds_nothing() {
    assert!(param(PARAM_COUNT).is_none());
    assert!(param(u32::MAX).is_none());
    assert_eq!(params().len() as u32, PARAM_COUNT);
}

#[test]
fn lookup_matches_the_table() {
    let all = params();
    for id in 0..PARAM_COUNT {
        let p = param(id).expect("every id below the count has an entry");
        let q = all[id as usize];
        assert_eq!(p.id, q.id);
        assert_eq!(p.name, q.name);
        assert_eq!((p.min, p.max, p.default, p.stepped), (q.min, q.max, q.default, q.stepped));
    }
}

#[test]
fn ranges_are_held_exactly_in_fixed_point() {
    let az = param(P_AZIMUTH).unwrap();
    assert_eq!((az.min, az.max, az.default), (-180 * PARAM_TICKS_PER_UNIT, 180 * PARAM_TICKS_PER_UNIT, 0));
    assert_eq!(az.name, "Azimuth");
    let dist = param(P_DISTANCE).unwrap();
    assert_eq!((dist.min, dist.max, dist.default), (500, 200_000, 10_000));
    let head = param(P_HEAD_RADIUS).unwrap();
    assert_eq!((head.min, head.max, head.default), (600, 1_100, 875));
    let ear = param(P_EAR_OFFSET).unwrap();
    assert_eq!((ear.min, ear.max, ear.default), (0, 900_000, 450_000));
    let n1 = param(P_N1_FRONT).unwrap();
    assert_eq!((n1.min, n1.max, n1.default), (40_000_000, 140_000_000, 80_000_000));
    let p2 = param(P_P2).unwrap();
    assert_eq!(p2.name, "P2 Peak");
    assert_eq!((p2.min, p2.max, p2.default), (60_000_000, 110_000_000, 85_000_000));
}

#[test]
fn toggles_are_stepped_on_off_and_default_on() {
    let prox = param(P_EN_PROXIMITY).unwrap();
    assert!(prox.stepped);
    assert_eq!((prox.min, prox.max, prox.default), (0, PARAM_TICKS_PER_UNIT, PARAM_TICKS_PER_UNIT));
    let stepped: Vec<u32> = params().iter().filter(|p| p.stepped).map(|p| p.id).collect();
    assert_eq!(stepped, vec![5, 6, 7, 8, 9, 10]);
    for p in params().iter().filter(|p| p.stepped) {
        assert_eq!((p.min, p.max), (0, PARAM_TICKS_PER_UNIT));
    }
}
