pub mod wireframe;
