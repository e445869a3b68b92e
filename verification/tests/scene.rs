use rt_next_week::scene::{
    append_quad_triangles, append_sphere_triangles, assign_material_slots, MeshTopology,
};

#[test]
fn sphere_tessellation_triangle_counts() {
    let mut indices = Vec::new();
    let mut tri = Vec::new();
    append_sphere_triangles(&mut indices, &mut tri, 0, 0);
    assert_eq!(tri.len(), 32 * 32 * 2);
    assert_eq!(indices.len(), 32 * 32 * 2 * 3);
    assert!(tri.iter().all(|&m| m == 0));
}

#[test]
fn sphere_tessellation_first_cell_and_bounds() {
    let mut indices = vec![99u32];
    let mut tri = vec![5u32];
    append_sphere_triangles(&mut indices, &mut tri, 100, 3);
    assert_eq!(indices[0], 99);
    assert_eq!(tri[0], 5);
    assert_eq!(&indices[1..7], &[100, 133, 101, 101, 133, 134]);
    // last cell: row 31, column 31
    let a = 100 + 31 * 33 + 31;
    let n = indices.len();
    assert_eq!(&indices[n - 6..], &[a, a + 33, a + 1, a + 1, a + 33, a + 34]);
    assert!(indices[1..].iter().all(|&i| (100..100 + 33 * 33).contains(&i)));
    assert!(tri[1..].iter().all(|&m| m == 3));
    assert_eq!(tri.len(), 1 + 2048);
}

#[test]
fn quad_tessellation_two_triangles() {
    let mut indices = Vec::new();
    let mut tri = Vec::new();
    append_quad_triangles(&mut indices, &mut tri, 8, 2);
    assert_eq!(indices, vec![8, 9, 10, 9, 11, 10]);
    assert_eq!(tri, vec![2, 2]);
}

#[test]
fn material_slots_follow_first_occurrence() {
    let keys = vec![Some(7usize), None, Some(3), Some(7), Some(3), Some(11)];
    let (firsts, slots) = assign_material_slots(&keys);
    assert_eq!(firsts, vec![0, 2, 5]);
    assert_eq!(slots, vec![0, 0, 1, 0, 1, 2]);
}

#[test]
fn material_slots_without_materials() {
    let keys: Vec<Option<usize>> = vec![None, None];
    let (firsts, slots) = assign_material_slots(&keys);
    assert!(firsts.is_empty());
    assert_eq!(slots, vec![0, 0]);
}

#[test]
fn mesh_topology_whole_scene_shape() {
    let keys = vec![Some(10usize), None, Some(10), Some(20)];
    let (mut mesh, first) = MeshTopology::for_material_keys(&keys);
    assert_eq!(first, vec![0, 3]);
    assert_eq!(mesh.material_count(), 2);
    assert_eq!(mesh.vertex_count(), 0);
    assert_eq!(mesh.add_quad(1), 0);
    assert_eq!(mesh.add_sphere(3), 4);
    assert_eq!(mesh.add_quad(2), 4 + 1089);
    assert_eq!(mesh.vertex_count(), 4 + 1089 + 4);
    let vertex_count = mesh.vertex_count();
    let (indices, tri_to_material) = mesh.into_parts();
    assert_eq!(indices.len(), 3 * tri_to_material.len());
    assert_eq!(tri_to_material.len(), 2 + 2048 + 2);
    assert!(indices.iter().all(|&i| (i as u64) < vertex_count));
    assert_eq!(&indices[..6], &[0, 1, 2, 1, 3, 2]);
    assert_eq!(&indices[6..9], &[4, 4 + 33, 5]);
    assert_eq!(&tri_to_material[..2], &[0, 0]);
    assert!(tri_to_material[2..2050].iter().all(|&m| m == 1));
    assert_eq!(&tri_to_material[2050..], &[0, 0]);
}

#[test]
fn mesh_topology_without_materials_has_default() {
    let keys: Vec<Option<usize>> = vec![None, None];
    let (mut mesh, first) = MeshTopology::for_material_keys(&keys);
    assert!(first.is_empty());
    assert_eq!(mesh.material_count(), 1);
    mesh.add_quad(1);
    let (indices, tri_to_material) = mesh.into_parts();
    assert_eq!(indices, vec![0, 1, 2, 1, 3, 2]);
    assert_eq!(tri_to_material, vec![0, 0]);
}
