pub mod sharedmemory;
