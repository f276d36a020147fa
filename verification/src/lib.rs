//! Flattens the display lists of a scene into what frames are built from.
//!
//! [`flattener::DisplayListFlattener`] holds what has been built so far;
//! [`traversal::Traversal`] is the way through the display lists. Each call of
//! `flatten_items` takes one step on it. The modules `soundness`, `references`,
//! `stepping`, `growth`, `runs`, `marking` and `laws` prove what holds of a scene
//! throughout. The modules `drawn`, `placed`, `composed`, `shaded`, `outcomes`,
//! `promises` and `held` prove what each item of a display list comes to, in the
//! words of `effects`.
pub mod caching;
pub mod clip_store;
pub mod composed;
pub mod contexts;
pub mod display_list;
pub mod drawn;
pub mod effects;
pub mod flattener;
pub mod frame_builder;
pub mod growth;
pub mod held;
pub mod hit_test;
pub mod ids;
pub mod items;
pub mod laws;
pub mod layout;
pub mod mapper;
pub mod marking;
pub mod outcomes;
pub mod picture;
pub mod placed;
pub mod primitives;
pub mod promises;
pub mod references;
pub mod runs;
pub mod shaded;
pub mod shadowing;
pub mod shadows;
pub mod soundness;
pub mod spatial_tree;
pub mod stacking_context;
pub mod state;
pub mod stepping;
pub mod traversal;
