mod bit_buffer;
mod bit_flags;
mod bits;
mod data_set;
mod flag_names;
mod flags_buffer;
mod fx_hash;
mod lazy_grow_list;
mod map_laws;
mod queue;
mod slot_table;
pub mod xy_hash_map;
pub use fx_hash::{fx_bytes, fx_mix, fx_str_hash, le_word, str_eq, FxHasher, XyKey, FX_MUL};
pub use slot_table::{EMPTY, TOMBSTONE};
pub use xy_hash_map::{
    distinct_keys, grown_table_len, has_room_for_one_more, is_pow2, key_index, min_table_len, room_for_one_more,
    swap_removed, filter_by, insert_all, entries_map, Entry, IntoIter, Iter, IterMut, OccupiedEntry, VacantEntry, XyHashMap, INIT_CAP,
};
pub use queue::{law_first_in_first_out, Queue};
pub use lazy_grow_list::{law_push_reuses_oldest_freed, LazyGrowList};
pub use bit_buffer::{law_bit_read_after_write, BitBuffer};
pub use bits::bit_at;
pub use flags_buffer::{bits_value, buffer_bytes, low_mask, Flags, FlagsBuffer};
pub use bit_flags::{FlagSet16, FlagSet32, FlagSet64, FlagSet8};
pub use data_set::{empty_slots, DataSet, DataSetKey, DataSetSchema};
pub use flag_names::{describe_flags, law_empty_shows_zero, flag_text, hex_digit, hex_text, named_parts, separator};
pub use map_laws::{capacity_of, same_entries, law_capacity_after_insert, law_len_counts_keys, law_read_after_insert, law_read_after_remove, law_rebuild_from_entries};
