[package]
name = "kerla"
version = "0.1.0"
edition = "2021"
publish = false

[dependencies]
arrayvec = { version = "0.7", default-features = false }
hashbrown = "0.11"
bitflags = "1"
x86 = "0.43"
spin = "0.9"
crossbeam = { version = "0.8", default-features = false, features = ["alloc"] }
atomic_refcell = "0.1"
buddy_system_allocator = "0.8"
log = "0.4"
memoffset = "0.6"
