// Typed, namespaced access to a byte-keyed store.
//
// `storage` holds the raw store interface and an in-memory store,
// `prefix` the namespaces, `value` the codec trait and the error type,
// `typed` the typed views with many keys, `singleton` the typed views of
// one value per namespace, and `laws` what holds across their operations.
pub mod laws;
pub mod prefix;
pub mod singleton;
pub mod storage;
pub mod typed;
pub mod value;
