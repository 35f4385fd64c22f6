use blawktrust::{
    lookup_ori, ori_h, ori_n, ori_r, ori_rev_h, ori_rev_n, ori_rev_s, ori_rev_z, ori_s,
    ori_specs, ori_x, ori_z, Ori, OriClass, ReduceMode, VecAxis, NULL_DATE, NULL_TIMESTAMP,
    NULL_TS,
};

#[test]
fn test_ori_h_identity() {
    let ori = ori_h();
    let (nr, nc) = (3, 4);

    assert_eq!(ori.logical_shape(nr, nc), (3, 4));

    assert_eq!(ori.map_ij(nr, nc, 0, 0), (0, 0));
    assert_eq!(ori.map_ij(nr, nc, 1, 2), (1, 2));
    assert_eq!(ori.map_ij(nr, nc, 2, 3), (2, 3));

    assert_eq!(ori.class(), OriClass::ColwiseLike);
    assert_eq!(ori.reduce_mode(), ReduceMode::ByCols);
}

#[test]
fn test_ori_z_transpose() {
    let ori = ori_z();
    let (nr, nc) = (3, 4);

    assert_eq!(ori.logical_shape(nr, nc), (4, 3));

    assert_eq!(ori.map_ij(nr, nc, 0, 0), (0, 0));
    assert_eq!(ori.map_ij(nr, nc, 1, 2), (2, 1));
    assert_eq!(ori.map_ij(nr, nc, 3, 2), (2, 3));

    assert_eq!(ori.class(), OriClass::RowwiseLike);
    assert_eq!(ori.reduce_mode(), ReduceMode::ByRows);
}

#[test]
fn test_ori_n_flip_rows() {
    let ori = Ori::D4 {
        swap: false,
        flip_i: true,
        flip_j: false,
    };
    let (nr, nc) = (3, 4);

    assert_eq!(ori.logical_shape(nr, nc), (3, 4));

    assert_eq!(ori.map_ij(nr, nc, 0, 0), (2, 0));
    assert_eq!(ori.map_ij(nr, nc, 1, 2), (1, 2));
    assert_eq!(ori.map_ij(nr, nc, 2, 3), (0, 3));
}

#[test]
fn test_ori_lookup() {
    let h = lookup_ori("H").unwrap();
    assert_eq!(h.name, "H");
    assert_eq!(h.compass, "NSWE");
    assert_eq!(h.ori, ori_h());

    let z = lookup_ori("Z").unwrap();
    assert_eq!(z.name, "Z");
    assert_eq!(z.compass, "WENS");
    assert_eq!(z.ori, ori_z());

    let x = lookup_ori("X").unwrap();
    assert_eq!(x.ori, ori_x());

    assert!(lookup_ori("INVALID").is_none());
}

#[test]
fn test_all_ten_orientations() {
    let specs = ori_specs();
    assert_eq!(specs.len(), 10);

    let names: Vec<&str> = specs.iter().map(|s| s.name).collect();
    assert_eq!(
        names,
        vec!["H", "N", "_N", "_H", "Z", "S", "_Z", "_S", "X", "R"]
    );

    let colwise = specs
        .iter()
        .filter(|s| s.class == OriClass::ColwiseLike)
        .count();
    let rowwise = specs
        .iter()
        .filter(|s| s.class == OriClass::RowwiseLike)
        .count();
    assert_eq!(colwise, 4);
    assert_eq!(rowwise, 4);
}

#[test]
fn test_reduce_modes() {
    assert_eq!(ori_h().reduce_mode(), ReduceMode::ByCols);
    assert_eq!(ori_z().reduce_mode(), ReduceMode::ByRows);
    assert_eq!(ori_r().reduce_mode(), ReduceMode::Scalar);
    assert_eq!(ori_x().reduce_mode(), ReduceMode::ByCols);
}

#[test]
fn test_3x4_table_all_indices() {
    let (nr, nc) = (3, 4);

    let ori = ori_h();
    for i in 0..nr {
        for j in 0..nc {
            let (phys_r, phys_c) = ori.map_ij(nr, nc, i, j);
            assert_eq!(phys_r, i);
            assert_eq!(phys_c, j);
        }
    }

    let ori = ori_z();
    let (log_nr, log_nc) = ori.logical_shape(nr, nc);
    assert_eq!((log_nr, log_nc), (4, 3));

    for i in 0..log_nr {
        for j in 0..log_nc {
            let (phys_r, phys_c) = ori.map_ij(nr, nc, i, j);
            assert_eq!(phys_r, j);
            assert_eq!(phys_c, i);
        }
    }
}

#[test]
fn test_canonical_names() {
    assert_eq!(ori_h().canonical_name(), "H");
    assert_eq!(ori_n().canonical_name(), "N");
    assert_eq!(ori_rev_n().canonical_name(), "_N");
    assert_eq!(ori_rev_h().canonical_name(), "_H");

    assert_eq!(ori_z().canonical_name(), "Z");
    assert_eq!(ori_s().canonical_name(), "Z");
    assert_eq!(ori_rev_z().canonical_name(), "_Z");
    assert_eq!(ori_rev_s().canonical_name(), "_S");

    assert_eq!(ori_x().canonical_name(), "X");
    assert_eq!(ori_r().canonical_name(), "R");
}

#[test]
fn null_sentinels_api_contract() {
    let _date_null: i32 = NULL_DATE;
    let _timestamp_null: i64 = NULL_TIMESTAMP;
    let _ts_null: i64 = NULL_TS;

    assert_eq!(NULL_DATE, i32::MIN);
    assert_eq!(NULL_TIMESTAMP, i64::MIN);
    assert_eq!(NULL_TS, i64::MIN);
}

#[test]
fn vector_axis_follows_the_transpose() {
    assert_eq!(ori_h().vec_axis(), Some(VecAxis::AlongI));
    assert_eq!(ori_rev_n().vec_axis(), Some(VecAxis::AlongI));
    assert_eq!(ori_z().vec_axis(), Some(VecAxis::AlongJ));
    assert_eq!(ori_x().vec_axis(), None);
    assert_eq!(ori_r().vec_axis(), None);
    assert_eq!(ori_x().class(), OriClass::Each);
    assert_eq!(ori_r().class(), OriClass::Real);
}

#[test]
fn flips_after_transpose_use_physical_dimensions() {
    // _Z: transpose, then reverse physical rows
    let (nr, nc) = (3, 4);
    assert_eq!(ori_rev_z().logical_shape(nr, nc), (4, 3));
    assert_eq!(ori_rev_z().map_ij(nr, nc, 0, 0), (2, 0));
    assert_eq!(ori_rev_s().map_ij(nr, nc, 1, 2), (2, 2));
    assert_eq!(ori_rev_h().map_ij(nr, nc, 0, 0), (2, 3));
    assert_eq!(ori_x().map_ij(nr, nc, 7, 9), (7, 9));
}

#[test]
fn lookup_finds_synonyms_and_modes() {
    let s = lookup_ori("S").unwrap();
    assert_eq!(s.ori, ori_z());
    assert_eq!(s.compass, "EWNS");
    assert_eq!(s.class, OriClass::RowwiseLike);
    let r = lookup_ori("R").unwrap();
    assert_eq!(r.ori, Ori::Real);
    assert!(lookup_ori("").is_none());
    assert!(lookup_ori("h").is_none());
    let d4 = Ori::D4 { swap: true, flip_i: true, flip_j: true };
    assert_eq!(d4.canonical_name(), "??");
}
