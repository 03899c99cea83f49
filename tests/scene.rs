use raytracer::{build_scene, obj, samples_per_worker, to_static, Scene, SceneSky};

#[test]
fn builder_keeps_insertion_order() {
    let scene = build_scene::<u32, char, &str>()
        .add(1, 'a')
        .add(2, 'b')
        .add(3, 'c')
        .build();
    let forms: Vec<u32> = scene.objects().iter().map(|o| *o.form()).collect();
    let materials: Vec<char> = scene.objects().iter().map(|o| *o.material()).collect();
    assert_eq!(forms, vec![1, 2, 3]);
    assert_eq!(materials, vec!['a', 'b', 'c']);
}

#[test]
fn builder_defaults_to_gradient_sky() {
    let scene = build_scene::<u32, u32, &str>().add(1, 2).build();
    assert!(matches!(scene.sky(), SceneSky::Gradient(_)));
}

#[test]
fn builder_uses_chosen_sky() {
    let scene = build_scene::<u32, u32, &str>()
        .set_sky("dusk")
        .add(1, 2)
        .set_sky("night")
        .build();
    assert!(matches!(scene.sky(), SceneSky::Custom("night")));
    assert_eq!(scene.objects().len(), 1);
}

#[test]
fn empty_scene_has_no_objects() {
    let scene = build_scene::<u32, u32, u8>().build();
    assert!(scene.objects().is_empty());
    assert!(matches!(scene.sky(), SceneSky::Gradient(_)));
}

#[test]
fn scene_new_keeps_objects_and_sky() {
    let scene = Scene::new(7u8, vec![obj(1u32, 'x'), obj(2u32, 'y')]);
    assert_eq!(scene.objects().len(), 2);
    assert_eq!(*scene.objects()[1].form(), 2);
    assert_eq!(*scene.objects()[0].material(), 'x');
    assert!(matches!(scene.sky(), SceneSky::Custom(7)));
}

#[test]
fn samples_split_evenly() {
    assert_eq!(samples_per_worker(200, 8), 25);
    assert_eq!(samples_per_worker(10, 3), 3);
    assert_eq!(samples_per_worker(5, 8), 0);
    assert_eq!(samples_per_worker(7, 1), 7);
}

#[test]
fn to_static_keeps_value() {
    let v: &'static Vec<u32> = to_static(vec![4, 5, 6]);
    assert_eq!(*v, vec![4, 5, 6]);
    let s: &'static String = to_static(String::from("scene"));
    assert_eq!(s, "scene");
}
