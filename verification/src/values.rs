//! Laws on how each value type of a property is decoded from its bytes.

use vstd::prelude::*;

use crate::guid::guid_braced_upper;
use crate::propdefs::DefView;
use crate::reader::{eof_message, i32_at, i64_at, u32_at, u64_at};
use crate::spb::{enum_message, layout_of, negative_length_message, trim_nul_seq, layout_scalars, layout_size, property_value, Field, ScalarView};
use crate::text::{decimal, lossy_utf8, upper_seq};
use crate::textdecode::TextTable;

verus! {

/// What a value of `k` bytes at `p` holding `fields` decodes to: the fields,
/// ending `k` bytes on, or the end-of-data error when fewer bytes are left.
pub open spec fn value_of_size(d: Seq<u8>, p: int, k: int, fields: Seq<ScalarView>) -> Result<
    (int, Option<Seq<ScalarView>>),
    Seq<char>,
> {
    if p + k > d.len() {
        Err(eof_message())
    } else {
        Ok((p + k, Some(fields)))
    }
}

proof fn lemma_fixed_size_value(d: Seq<u8>, t: TextTable, p: int, def: DefView, size: int)
    requires
        ({
            let vt = upper_seq(def.value_type);
            vt != "TEXT"@ && vt != "MLTEXT"@ && vt != "BEZIERCURVE"@ && vt != "FLOAT"@ && vt != "FLOAT2"@
                && vt != "FLOAT3"@ && vt != "FLOAT4"@ && vt != "ENUM"@ && vt != "FILETIME"@
        }),
    ensures
        layout_of(upper_seq(def.value_type)) matches Some(fs) ==> property_value(d, t, p, def, size)
            == value_of_size(d, p, layout_size(fs), layout_scalars(d, p, fs)),
{
}

proof fn lemma_ulong_is_fixed_size()
    ensures
        "ULONG"@ != "TEXT"@,
        "ULONG"@ != "MLTEXT"@,
        "ULONG"@ != "BEZIERCURVE"@,
        "ULONG"@ != "FLOAT"@,
        "ULONG"@ != "FLOAT2"@,
        "ULONG"@ != "FLOAT3"@,
        "ULONG"@ != "FLOAT4"@,
        "ULONG"@ != "ENUM"@,
        "ULONG"@ != "FILETIME"@,
{
    reveal_strlit("TEXT");
    reveal_strlit("MLTEXT");
    reveal_strlit("BEZIERCURVE");
    reveal_strlit("FLOAT");
    reveal_strlit("FLOAT2");
    reveal_strlit("FLOAT3");
    reveal_strlit("FLOAT4");
    reveal_strlit("ENUM");
    reveal_strlit("FILETIME");
    reveal_strlit("ULONG");
    assert("ULONG"@ != "TEXT"@) by { assert("ULONG"@.len() != "TEXT"@.len()); }
    assert("ULONG"@ != "MLTEXT"@) by { assert("ULONG"@.len() != "MLTEXT"@.len()); }
    assert("ULONG"@ != "BEZIERCURVE"@) by { assert("ULONG"@.len() != "BEZIERCURVE"@.len()); }
    assert("ULONG"@ != "FLOAT"@) by { assert("ULONG"@[0] != "FLOAT"@[0]); }
    assert("ULONG"@ != "FLOAT2"@) by { assert("ULONG"@.len() != "FLOAT2"@.len()); }
    assert("ULONG"@ != "FLOAT3"@) by { assert("ULONG"@.len() != "FLOAT3"@.len()); }
    assert("ULONG"@ != "FLOAT4"@) by { assert("ULONG"@.len() != "FLOAT4"@.len()); }
    assert("ULONG"@ != "ENUM"@) by { assert("ULONG"@.len() != "ENUM"@.len()); }
    assert("ULONG"@ != "FILETIME"@) by { assert("ULONG"@.len() != "FILETIME"@.len()); }
}

proof fn lemma_ulong_layout()
    ensures
        layout_of("ULONG"@) == Some(seq![Field::U32Dec]),
{
    reveal_strlit("ULONG");

}

proof fn lemma_ulong_fields(d: Seq<u8>, p: int)
    ensures
        layout_size(seq![Field::U32Dec]) == 4,
        layout_scalars(d, p, seq![Field::U32Dec]) == seq![
            ScalarView::Text(decimal(u32_at(d, p))),
        ],
{
    let fs = seq![Field::U32Dec];
    reveal_with_fuel(layout_scalars, 2);
    reveal_with_fuel(layout_size, 2);
    assert(layout_scalars(d, p, fs) =~= seq![
        ScalarView::Text(decimal(u32_at(d, p))),
    ]);
}

proof fn lemma_value_ulong(d: Seq<u8>, t: TextTable, p: int, def: DefView, size: int)
    ensures
        upper_seq(def.value_type) == "ULONG"@ ==> property_value(d, t, p, def, size) == value_of_size(
            d,
            p,
            4,
            seq![
                ScalarView::Text(decimal(u32_at(d, p))),
            ],
        ),
{
    if upper_seq(def.value_type) == "ULONG"@ {
        lemma_ulong_is_fixed_size();
        lemma_ulong_layout();
        lemma_ulong_fields(d, p);
        lemma_fixed_size_value(d, t, p, def, size);
    }
}

proof fn lemma_long_is_fixed_size()
    ensures
        "LONG"@ != "TEXT"@,
        "LONG"@ != "MLTEXT"@,
        "LONG"@ != "BEZIERCURVE"@,
        "LONG"@ != "FLOAT"@,
        "LONG"@ != "FLOAT2"@,
        "LONG"@ != "FLOAT3"@,
        "LONG"@ != "FLOAT4"@,
        "LONG"@ != "ENUM"@,
        "LONG"@ != "FILETIME"@,
{
    reveal_strlit("TEXT");
    reveal_strlit("MLTEXT");
    reveal_strlit("BEZIERCURVE");
    reveal_strlit("FLOAT");
    reveal_strlit("FLOAT2");
    reveal_strlit("FLOAT3");
    reveal_strlit("FLOAT4");
    reveal_strlit("ENUM");
    reveal_strlit("FILETIME");
    reveal_strlit("LONG");
    assert("LONG"@ != "TEXT"@) by { assert("LONG"@[0] != "TEXT"@[0]); }
    assert("LONG"@ != "MLTEXT"@) by { assert("LONG"@.len() != "MLTEXT"@.len()); }
    assert("LONG"@ != "BEZIERCURVE"@) by { assert("LONG"@.len() != "BEZIERCURVE"@.len()); }
    assert("LONG"@ != "FLOAT"@) by { assert("LONG"@.len() != "FLOAT"@.len()); }
    assert("LONG"@ != "FLOAT2"@) by { assert("LONG"@.len() != "FLOAT2"@.len()); }
    assert("LONG"@ != "FLOAT3"@) by { assert("LONG"@.len() != "FLOAT3"@.len()); }
    assert("LONG"@ != "FLOAT4"@) by { assert("LONG"@.len() != "FLOAT4"@.len()); }
    assert("LONG"@ != "ENUM"@) by { assert("LONG"@[0] != "ENUM"@[0]); }
    assert("LONG"@ != "FILETIME"@) by { assert("LONG"@.len() != "FILETIME"@.len()); }
}

proof fn lemma_long_layout()
    ensures
        layout_of("LONG"@) == Some(seq![Field::I32Dec]),
{
    reveal_strlit("ULONG");
    reveal_strlit("LONG");
    assert("LONG"@ != "ULONG"@) by { assert("LONG"@.len() != "ULONG"@.len()); }
}

proof fn lemma_long_fields(d: Seq<u8>, p: int)
    ensures
        layout_size(seq![Field::I32Dec]) == 4,
        layout_scalars(d, p, seq![Field::I32Dec]) == seq![
            ScalarView::Text(decimal(i32_at(d, p))),
        ],
{
    let fs = seq![Field::I32Dec];
    reveal_with_fuel(layout_scalars, 2);
    reveal_with_fuel(layout_size, 2);
    assert(layout_scalars(d, p, fs) =~= seq![
        ScalarView::Text(decimal(i32_at(d, p))),
    ]);
}

proof fn lemma_value_long(d: Seq<u8>, t: TextTable, p: int, def: DefView, size: int)
    ensures
        upper_seq(def.value_type) == "LONG"@ ==> property_value(d, t, p, def, size) == value_of_size(
            d,
            p,
            4,
            seq![
                ScalarView::Text(decimal(i32_at(d, p))),
            ],
        ),
{
    if upper_seq(def.value_type) == "LONG"@ {
        lemma_long_is_fixed_size();
        lemma_long_layout();
        lemma_long_fields(d, p);
        lemma_fixed_size_value(d, t, p, def, size);
    }
}

proof fn lemma_long2_is_fixed_size()
    ensures
        "LONG2"@ != "TEXT"@,
        "LONG2"@ != "MLTEXT"@,
        "LONG2"@ != "BEZIERCURVE"@,
        "LONG2"@ != "FLOAT"@,
        "LONG2"@ != "FLOAT2"@,
        "LONG2"@ != "FLOAT3"@,
        "LONG2"@ != "FLOAT4"@,
        "LONG2"@ != "ENUM"@,
        "LONG2"@ != "FILETIME"@,
{
    reveal_strlit("TEXT");
    reveal_strlit("MLTEXT");
    reveal_strlit("BEZIERCURVE");
    reveal_strlit("FLOAT");
    reveal_strlit("FLOAT2");
    reveal_strlit("FLOAT3");
    reveal_strlit("FLOAT4");
    reveal_strlit("ENUM");
    reveal_strlit("FILETIME");
    reveal_strlit("LONG2");
    assert("LONG2"@ != "TEXT"@) by { assert("LONG2"@.len() != "TEXT"@.len()); }
    assert("LONG2"@ != "MLTEXT"@) by { assert("LONG2"@.len() != "MLTEXT"@.len()); }
    assert("LONG2"@ != "BEZIERCURVE"@) by { assert("LONG2"@.len() != "BEZIERCURVE"@.len()); }
    assert("LONG2"@ != "FLOAT"@) by { assert("LONG2"@[0] != "FLOAT"@[0]); }
    assert("LONG2"@ != "FLOAT2"@) by { assert("LONG2"@.len() != "FLOAT2"@.len()); }
    assert("LONG2"@ != "FLOAT3"@) by { assert("LONG2"@.len() != "FLOAT3"@.len()); }
    assert("LONG2"@ != "FLOAT4"@) by { assert("LONG2"@.len() != "FLOAT4"@.len()); }
    assert("LONG2"@ != "ENUM"@) by { assert("LONG2"@.len() != "ENUM"@.len()); }
    assert("LONG2"@ != "FILETIME"@) by { assert("LONG2"@.len() != "FILETIME"@.len()); }
}

proof fn lemma_long2_layout()
    ensures
        layout_of("LONG2"@) == Some(seq![Field::I32Dec, Field::I32Dec]),
{
    reveal_strlit("ULONG");
    reveal_strlit("LONG");
    reveal_strlit("LONG2");
    assert("LONG2"@ != "ULONG"@) by { assert("LONG2"@[0] != "ULONG"@[0]); }
    assert("LONG2"@ != "LONG"@) by { assert("LONG2"@.len() != "LONG"@.len()); }
}

proof fn lemma_long2_fields(d: Seq<u8>, p: int)
    ensures
        layout_size(seq![Field::I32Dec, Field::I32Dec]) == 8,
        layout_scalars(d, p, seq![Field::I32Dec, Field::I32Dec]) == seq![
            ScalarView::Text(decimal(i32_at(d, p))),
            ScalarView::Text(decimal(i32_at(d, p + 4))),
        ],
{
    let fs = seq![Field::I32Dec, Field::I32Dec];
    reveal_with_fuel(layout_scalars, 3);
    reveal_with_fuel(layout_size, 3);
    assert(layout_scalars(d, p, fs) =~= seq![
        ScalarView::Text(decimal(i32_at(d, p))),
        ScalarView::Text(decimal(i32_at(d, p + 4))),
    ]);
}

proof fn lemma_value_long2(d: Seq<u8>, t: TextTable, p: int, def: DefView, size: int)
    ensures
        upper_seq(def.value_type) == "LONG2"@ ==> property_value(d, t, p, def, size) == value_of_size(
            d,
            p,
            8,
            seq![
                ScalarView::Text(decimal(i32_at(d, p))),
                ScalarView::Text(decimal(i32_at(d, p + 4))),
            ],
        ),
{
    if upper_seq(def.value_type) == "LONG2"@ {
        lemma_long2_is_fixed_size();
        lemma_long2_layout();
        lemma_long2_fields(d, p);
        lemma_fixed_size_value(d, t, p, def, size);
    }
}

proof fn lemma_long4_is_fixed_size()
    ensures
        "LONG4"@ != "TEXT"@,
        "LONG4"@ != "MLTEXT"@,
        "LONG4"@ != "BEZIERCURVE"@,
        "LONG4"@ != "FLOAT"@,
        "LONG4"@ != "FLOAT2"@,
        "LONG4"@ != "FLOAT3"@,
        "LONG4"@ != "FLOAT4"@,
        "LONG4"@ != "ENUM"@,
        "LONG4"@ != "FILETIME"@,
{
    reveal_strlit("TEXT");
    reveal_strlit("MLTEXT");
    reveal_strlit("BEZIERCURVE");
    reveal_strlit("FLOAT");
    reveal_strlit("FLOAT2");
    reveal_strlit("FLOAT3");
    reveal_strlit("FLOAT4");
    reveal_strlit("ENUM");
    reveal_strlit("FILETIME");
    reveal_strlit("LONG4");
    assert("LONG4"@ != "TEXT"@) by { assert("LONG4"@.len() != "TEXT"@.len()); }
    assert("LONG4"@ != "MLTEXT"@) by { assert("LONG4"@.len() != "MLTEXT"@.len()); }
    assert("LONG4"@ != "BEZIERCURVE"@) by { assert("LONG4"@.len() != "BEZIERCURVE"@.len()); }
    assert("LONG4"@ != "FLOAT"@) by { assert("LONG4"@[0] != "FLOAT"@[0]); }
    assert("LONG4"@ != "FLOAT2"@) by { assert("LONG4"@.len() != "FLOAT2"@.len()); }
    assert("LONG4"@ != "FLOAT3"@) by { assert("LONG4"@.len() != "FLOAT3"@.len()); }
    assert("LONG4"@ != "FLOAT4"@) by { assert("LONG4"@.len() != "FLOAT4"@.len()); }
    assert("LONG4"@ != "ENUM"@) by { assert("LONG4"@.len() != "ENUM"@.len()); }
    assert("LONG4"@ != "FILETIME"@) by { assert("LONG4"@.len() != "FILETIME"@.len()); }
}

proof fn lemma_long4_layout()
    ensures
        layout_of("LONG4"@) == Some(seq![Field::I32Dec, Field::I32Dec, Field::I32Dec, Field::I32Dec]),
{
    reveal_strlit("ULONG");
    reveal_strlit("LONG");
    reveal_strlit("LONG2");
    reveal_strlit("LONG4");
    assert("LONG4"@ != "ULONG"@) by { assert("LONG4"@[0] != "ULONG"@[0]); }
    assert("LONG4"@ != "LONG"@) by { assert("LONG4"@.len() != "LONG"@.len()); }
    assert("LONG4"@ != "LONG2"@) by { assert("LONG4"@[4] != "LONG2"@[4]); }
}

proof fn lemma_long4_fields(d: Seq<u8>, p: int)
    ensures
        layout_size(seq![Field::I32Dec, Field::I32Dec, Field::I32Dec, Field::I32Dec]) == 16,
        layout_scalars(d, p, seq![Field::I32Dec, Field::I32Dec, Field::I32Dec, Field::I32Dec]) == seq![
            ScalarView::Text(decimal(i32_at(d, p))),
            ScalarView::Text(decimal(i32_at(d, p + 4))),
            ScalarView::Text(decimal(i32_at(d, p + 8))),
            ScalarView::Text(decimal(i32_at(d, p + 12))),
        ],
{
    let fs = seq![Field::I32Dec, Field::I32Dec, Field::I32Dec, Field::I32Dec];
    reveal_with_fuel(layout_scalars, 5);
    reveal_with_fuel(layout_size, 5);
    assert(layout_scalars(d, p, fs) =~= seq![
        ScalarView::Text(decimal(i32_at(d, p))),
        ScalarView::Text(decimal(i32_at(d, p + 4))),
        ScalarView::Text(decimal(i32_at(d, p + 8))),
        ScalarView::Text(decimal(i32_at(d, p + 12))),
    ]);
}

proof fn lemma_value_long4(d: Seq<u8>, t: TextTable, p: int, def: DefView, size: int)
    ensures
        upper_seq(def.value_type) == "LONG4"@ ==> property_value(d, t, p, def, size) == value_of_size(
            d,
            p,
            16,
            seq![
                ScalarView::Text(decimal(i32_at(d, p))),
                ScalarView::Text(decimal(i32_at(d, p + 4))),
                ScalarView::Text(decimal(i32_at(d, p + 8))),
                ScalarView::Text(decimal(i32_at(d, p + 12))),
            ],
        ),
{
    if upper_seq(def.value_type) == "LONG4"@ {
        lemma_long4_is_fixed_size();
        lemma_long4_layout();
        lemma_long4_fields(d, p);
        lemma_fixed_size_value(d, t, p, def, size);
    }
}

proof fn lemma_bool_is_fixed_size()
    ensures
        "BOOL"@ != "TEXT"@,
        "BOOL"@ != "MLTEXT"@,
        "BOOL"@ != "BEZIERCURVE"@,
        "BOOL"@ != "FLOAT"@,
        "BOOL"@ != "FLOAT2"@,
        "BOOL"@ != "FLOAT3"@,
        "BOOL"@ != "FLOAT4"@,
        "BOOL"@ != "ENUM"@,
        "BOOL"@ != "FILETIME"@,
{
    reveal_strlit("TEXT");
    reveal_strlit("MLTEXT");
    reveal_strlit("BEZIERCURVE");
    reveal_strlit("FLOAT");
    reveal_strlit("FLOAT2");
    reveal_strlit("FLOAT3");
    reveal_strlit("FLOAT4");
    reveal_strlit("ENUM");
    reveal_strlit("FILETIME");
    reveal_strlit("BOOL");
    assert("BOOL"@ != "TEXT"@) by { assert("BOOL"@[0] != "TEXT"@[0]); }
    assert("BOOL"@ != "MLTEXT"@) by { assert("BOOL"@.len() != "MLTEXT"@.len()); }
    assert("BOOL"@ != "BEZIERCURVE"@) by { assert("BOOL"@.len() != "BEZIERCURVE"@.len()); }
    assert("BOOL"@ != "FLOAT"@) by { assert("BOOL"@.len() != "FLOAT"@.len()); }
    assert("BOOL"@ != "FLOAT2"@) by { assert("BOOL"@.len() != "FLOAT2"@.len()); }
    assert("BOOL"@ != "FLOAT3"@) by { assert("BOOL"@.len() != "FLOAT3"@.len()); }
    assert("BOOL"@ != "FLOAT4"@) by { assert("BOOL"@.len() != "FLOAT4"@.len()); }
    assert("BOOL"@ != "ENUM"@) by { assert("BOOL"@[0] != "ENUM"@[0]); }
    assert("BOOL"@ != "FILETIME"@) by { assert("BOOL"@.len() != "FILETIME"@.len()); }
}

proof fn lemma_bool_layout()
    ensures
        layout_of("BOOL"@) == Some(seq![Field::Bool]),
{
    reveal_strlit("ULONG");
    reveal_strlit("LONG");
    reveal_strlit("LONG2");
    reveal_strlit("LONG4");
    reveal_strlit("BOOL");
    assert("BOOL"@ != "ULONG"@) by { assert("BOOL"@.len() != "ULONG"@.len()); }
    assert("BOOL"@ != "LONG"@) by { assert("BOOL"@[0] != "LONG"@[0]); }
    assert("BOOL"@ != "LONG2"@) by { assert("BOOL"@.len() != "LONG2"@.len()); }
    assert("BOOL"@ != "LONG4"@) by { assert("BOOL"@.len() != "LONG4"@.len()); }
}

proof fn lemma_bool_fields(d: Seq<u8>, p: int)
    ensures
        layout_size(seq![Field::Bool]) == 4,
        layout_scalars(d, p, seq![Field::Bool]) == seq![
            ScalarView::Text(if i32_at(d, p) == 1 { "true"@ } else { "false"@ }),
        ],
{
    let fs = seq![Field::Bool];
    reveal_with_fuel(layout_scalars, 2);
    reveal_with_fuel(layout_size, 2);
    reveal_strlit("true");
    reveal_strlit("false");
    assert(layout_scalars(d, p, fs) =~= seq![
        ScalarView::Text(if i32_at(d, p) == 1 { "true"@ } else { "false"@ }),
    ]);
}

proof fn lemma_value_bool(d: Seq<u8>, t: TextTable, p: int, def: DefView, size: int)
    ensures
        upper_seq(def.value_type) == "BOOL"@ ==> property_value(d, t, p, def, size) == value_of_size(
            d,
            p,
            4,
            seq![
                ScalarView::Text(if i32_at(d, p) == 1 { "true"@ } else { "false"@ }),
            ],
        ),
{
    if upper_seq(def.value_type) == "BOOL"@ {
        lemma_bool_is_fixed_size();
        lemma_bool_layout();
        lemma_bool_fields(d, p);
        lemma_fixed_size_value(d, t, p, def, size);
    }
}

proof fn lemma_double_is_fixed_size()
    ensures
        "DOUBLE"@ != "TEXT"@,
        "DOUBLE"@ != "MLTEXT"@,
        "DOUBLE"@ != "BEZIERCURVE"@,
        "DOUBLE"@ != "FLOAT"@,
        "DOUBLE"@ != "FLOAT2"@,
        "DOUBLE"@ != "FLOAT3"@,
        "DOUBLE"@ != "FLOAT4"@,
        "DOUBLE"@ != "ENUM"@,
        "DOUBLE"@ != "FILETIME"@,
{
    reveal_strlit("TEXT");
    reveal_strlit("MLTEXT");
    reveal_strlit("BEZIERCURVE");
    reveal_strlit("FLOAT");
    reveal_strlit("FLOAT2");
    reveal_strlit("FLOAT3");
    reveal_strlit("FLOAT4");
    reveal_strlit("ENUM");
    reveal_strlit("FILETIME");
    reveal_strlit("DOUBLE");
    assert("DOUBLE"@ != "TEXT"@) by { assert("DOUBLE"@.len() != "TEXT"@.len()); }
    assert("DOUBLE"@ != "MLTEXT"@) by { assert("DOUBLE"@[0] != "MLTEXT"@[0]); }
    assert("DOUBLE"@ != "BEZIERCURVE"@) by { assert("DOUBLE"@.len() != "BEZIERCURVE"@.len()); }
    assert("DOUBLE"@ != "FLOAT"@) by { assert("DOUBLE"@.len() != "FLOAT"@.len()); }
    assert("DOUBLE"@ != "FLOAT2"@) by { assert("DOUBLE"@[0] != "FLOAT2"@[0]); }
    assert("DOUBLE"@ != "FLOAT3"@) by { assert("DOUBLE"@[0] != "FLOAT3"@[0]); }
    assert("DOUBLE"@ != "FLOAT4"@) by { assert("DOUBLE"@[0] != "FLOAT4"@[0]); }
    assert("DOUBLE"@ != "ENUM"@) by { assert("DOUBLE"@.len() != "ENUM"@.len()); }
    assert("DOUBLE"@ != "FILETIME"@) by { assert("DOUBLE"@.len() != "FILETIME"@.len()); }
}

proof fn lemma_double_layout()
    ensures
        layout_of("DOUBLE"@) == Some(seq![Field::Double]),
{
    reveal_strlit("ULONG");
    reveal_strlit("LONG");
    reveal_strlit("LONG2");
    reveal_strlit("LONG4");
    reveal_strlit("BOOL");
    reveal_strlit("DOUBLE");
    assert("DOUBLE"@ != "ULONG"@) by { assert("DOUBLE"@.len() != "ULONG"@.len()); }
    assert("DOUBLE"@ != "LONG"@) by { assert("DOUBLE"@.len() != "LONG"@.len()); }
    assert("DOUBLE"@ != "LONG2"@) by { assert("DOUBLE"@.len() != "LONG2"@.len()); }
    assert("DOUBLE"@ != "LONG4"@) by { assert("DOUBLE"@.len() != "LONG4"@.len()); }
    assert("DOUBLE"@ != "BOOL"@) by { assert("DOUBLE"@.len() != "BOOL"@.len()); }
}

proof fn lemma_double_fields(d: Seq<u8>, p: int)
    ensures
        layout_size(seq![Field::Double]) == 8,
        layout_scalars(d, p, seq![Field::Double]) == seq![
            ScalarView::Double(u64_at(d, p) as u64),
        ],
{
    let fs = seq![Field::Double];
    reveal_with_fuel(layout_scalars, 2);
    reveal_with_fuel(layout_size, 2);
    assert(layout_scalars(d, p, fs) =~= seq![
        ScalarView::Double(u64_at(d, p) as u64),
    ]);
}

proof fn lemma_value_double(d: Seq<u8>, t: TextTable, p: int, def: DefView, size: int)
    ensures
        upper_seq(def.value_type) == "DOUBLE"@ ==> property_value(d, t, p, def, size) == value_of_size(
            d,
            p,
            8,
            seq![
                ScalarView::Double(u64_at(d, p) as u64),
            ],
        ),
{
    if upper_seq(def.value_type) == "DOUBLE"@ {
        lemma_double_is_fixed_size();
        lemma_double_layout();
        lemma_double_fields(d, p);
        lemma_fixed_size_value(d, t, p, def, size);
    }
}

proof fn lemma_byte4_is_fixed_size()
    ensures
        "BYTE4"@ != "TEXT"@,
        "BYTE4"@ != "MLTEXT"@,
        "BYTE4"@ != "BEZIERCURVE"@,
        "BYTE4"@ != "FLOAT"@,
        "BYTE4"@ != "FLOAT2"@,
        "BYTE4"@ != "FLOAT3"@,
        "BYTE4"@ != "FLOAT4"@,
        "BYTE4"@ != "ENUM"@,
        "BYTE4"@ != "FILETIME"@,
{
    reveal_strlit("TEXT");
    reveal_strlit("MLTEXT");
    reveal_strlit("BEZIERCURVE");
    reveal_strlit("FLOAT");
    reveal_strlit("FLOAT2");
    reveal_strlit("FLOAT3");
    reveal_strlit("FLOAT4");
    reveal_strlit("ENUM");
    reveal_strlit("FILETIME");
    reveal_strlit("BYTE4");
    assert("BYTE4"@ != "TEXT"@) by { assert("BYTE4"@.len() != "TEXT"@.len()); }
    assert("BYTE4"@ != "MLTEXT"@) by { assert("BYTE4"@.len() != "MLTEXT"@.len()); }
    assert("BYTE4"@ != "BEZIERCURVE"@) by { assert("BYTE4"@.len() != "BEZIERCURVE"@.len()); }
    assert("BYTE4"@ != "FLOAT"@) by { assert("BYTE4"@[0] != "FLOAT"@[0]); }
    assert("BYTE4"@ != "FLOAT2"@) by { assert("BYTE4"@.len() != "FLOAT2"@.len()); }
    assert("BYTE4"@ != "FLOAT3"@) by { assert("BYTE4"@.len() != "FLOAT3"@.len()); }
    assert("BYTE4"@ != "FLOAT4"@) by { assert("BYTE4"@.len() != "FLOAT4"@.len()); }
    assert("BYTE4"@ != "ENUM"@) by { assert("BYTE4"@.len() != "ENUM"@.len()); }
    assert("BYTE4"@ != "FILETIME"@) by { assert("BYTE4"@.len() != "FILETIME"@.len()); }
}

proof fn lemma_byte4_layout()
    ensures
        layout_of("BYTE4"@) == Some(seq![Field::U8Dec, Field::U8Dec, Field::U8Dec, Field::U8Dec]),
{
    reveal_strlit("ULONG");
    reveal_strlit("LONG");
    reveal_strlit("LONG2");
    reveal_strlit("LONG4");
    reveal_strlit("BOOL");
    reveal_strlit("DOUBLE");
    reveal_strlit("BYTE4");
    assert("BYTE4"@ != "ULONG"@) by { assert("BYTE4"@[0] != "ULONG"@[0]); }
    assert("BYTE4"@ != "LONG"@) by { assert("BYTE4"@.len() != "LONG"@.len()); }
    assert("BYTE4"@ != "LONG2"@) by { assert("BYTE4"@[0] != "LONG2"@[0]); }
    assert("BYTE4"@ != "LONG4"@) by { assert("BYTE4"@[0] != "LONG4"@[0]); }
    assert("BYTE4"@ != "BOOL"@) by { assert("BYTE4"@.len() != "BOOL"@.len()); }
    assert("BYTE4"@ != "DOUBLE"@) by { assert("BYTE4"@.len() != "DOUBLE"@.len()); }
}

proof fn lemma_byte4_fields(d: Seq<u8>, p: int)
    ensures
        layout_size(seq![Field::U8Dec, Field::U8Dec, Field::U8Dec, Field::U8Dec]) == 4,
        layout_scalars(d, p, seq![Field::U8Dec, Field::U8Dec, Field::U8Dec, Field::U8Dec]) == seq![
            ScalarView::Text(decimal(d[p] as int)),
            ScalarView::Text(decimal(d[p + 1] as int)),
            ScalarView::Text(decimal(d[p + 2] as int)),
            ScalarView::Text(decimal(d[p + 3] as int)),
        ],
{
    let fs = seq![Field::U8Dec, Field::U8Dec, Field::U8Dec, Field::U8Dec];
    reveal_with_fuel(layout_scalars, 5);
    reveal_with_fuel(layout_size, 5);
    assert(layout_scalars(d, p, fs) =~= seq![
        ScalarView::Text(decimal(d[p] as int)),
        ScalarView::Text(decimal(d[p + 1] as int)),
        ScalarView::Text(decimal(d[p + 2] as int)),
        ScalarView::Text(decimal(d[p + 3] as int)),
    ]);
}

proof fn lemma_value_byte4(d: Seq<u8>, t: TextTable, p: int, def: DefView, size: int)
    ensures
        upper_seq(def.value_type) == "BYTE4"@ ==> property_value(d, t, p, def, size) == value_of_size(
            d,
            p,
            4,
            seq![
                ScalarView::Text(decimal(d[p] as int)),
                ScalarView::Text(decimal(d[p + 1] as int)),
                ScalarView::Text(decimal(d[p + 2] as int)),
                ScalarView::Text(decimal(d[p + 3] as int)),
            ],
        ),
{
    if upper_seq(def.value_type) == "BYTE4"@ {
        lemma_byte4_is_fixed_size();
        lemma_byte4_layout();
        lemma_byte4_fields(d, p);
        lemma_fixed_size_value(d, t, p, def, size);
    }
}

/// Integer, flag and byte values, whatever the case of their type name, are
/// read little-endian from the value's start, one field per stored number, in
/// order: `ULONG` one `u32` and `LONG` one `i32` in decimal; `LONG2` and
/// `LONG4` two and four consecutive `i32`s in decimal; `BOOL` an `i32` written
/// `true` when it is 1 and `false` otherwise; `DOUBLE` one 8 byte float;
/// `BYTE4` four bytes in decimal. Each consumes exactly its stored numbers,
/// and fails with the end-of-data error when they run past the data.
pub proof fn integer_values(d: Seq<u8>, t: TextTable, p: int, def: DefView, size: int)
    ensures
        upper_seq(def.value_type) == "ULONG"@ ==> property_value(d, t, p, def, size) == value_of_size(
            d,
            p,
            4,
            seq![
                ScalarView::Text(decimal(u32_at(d, p))),
            ],
        ),
        upper_seq(def.value_type) == "LONG"@ ==> property_value(d, t, p, def, size) == value_of_size(
            d,
            p,
            4,
            seq![
                ScalarView::Text(decimal(i32_at(d, p))),
            ],
        ),
        upper_seq(def.value_type) == "LONG2"@ ==> property_value(d, t, p, def, size) == value_of_size(
            d,
            p,
            8,
            seq![
                ScalarView::Text(decimal(i32_at(d, p))),
                ScalarView::Text(decimal(i32_at(d, p + 4))),
            ],
        ),
        upper_seq(def.value_type) == "LONG4"@ ==> property_value(d, t, p, def, size) == value_of_size(
            d,
            p,
            16,
            seq![
                ScalarView::Text(decimal(i32_at(d, p))),
                ScalarView::Text(decimal(i32_at(d, p + 4))),
                ScalarView::Text(decimal(i32_at(d, p + 8))),
                ScalarView::Text(decimal(i32_at(d, p + 12))),
            ],
        ),
        upper_seq(def.value_type) == "BOOL"@ ==> property_value(d, t, p, def, size) == value_of_size(
            d,
            p,
            4,
            seq![
                ScalarView::Text(if i32_at(d, p) == 1 { "true"@ } else { "false"@ }),
            ],
        ),
        upper_seq(def.value_type) == "DOUBLE"@ ==> property_value(d, t, p, def, size) == value_of_size(
            d,
            p,
            8,
            seq![
                ScalarView::Double(u64_at(d, p) as u64),
            ],
        ),
        upper_seq(def.value_type) == "BYTE4"@ ==> property_value(d, t, p, def, size) == value_of_size(
            d,
            p,
            4,
            seq![
                ScalarView::Text(decimal(d[p] as int)),
                ScalarView::Text(decimal(d[p + 1] as int)),
                ScalarView::Text(decimal(d[p + 2] as int)),
                ScalarView::Text(decimal(d[p + 3] as int)),
            ],
        ),
{
    lemma_value_ulong(d, t, p, def, size);
    lemma_value_long(d, t, p, def, size);
    lemma_value_long2(d, t, p, def, size);
    lemma_value_long4(d, t, p, def, size);
    lemma_value_bool(d, t, p, def, size);
    lemma_value_double(d, t, p, def, size);
    lemma_value_byte4(d, t, p, def, size);
}

proof fn lemma_guid_is_fixed_size()
    ensures
        "GUID"@ != "TEXT"@,
        "GUID"@ != "MLTEXT"@,
        "GUID"@ != "BEZIERCURVE"@,
        "GUID"@ != "FLOAT"@,
        "GUID"@ != "FLOAT2"@,
        "GUID"@ != "FLOAT3"@,
        "GUID"@ != "FLOAT4"@,
        "GUID"@ != "ENUM"@,
        "GUID"@ != "FILETIME"@,
{
    reveal_strlit("TEXT");
    reveal_strlit("MLTEXT");
    reveal_strlit("BEZIERCURVE");
    reveal_strlit("FLOAT");
    reveal_strlit("FLOAT2");
    reveal_strlit("FLOAT3");
    reveal_strlit("FLOAT4");
    reveal_strlit("ENUM");
    reveal_strlit("FILETIME");
    reveal_strlit("GUID");
    assert("GUID"@ != "TEXT"@) by { assert("GUID"@[0] != "TEXT"@[0]); }
    assert("GUID"@ != "MLTEXT"@) by { assert("GUID"@.len() != "MLTEXT"@.len()); }
    assert("GUID"@ != "BEZIERCURVE"@) by { assert("GUID"@.len() != "BEZIERCURVE"@.len()); }
    assert("GUID"@ != "FLOAT"@) by { assert("GUID"@.len() != "FLOAT"@.len()); }
    assert("GUID"@ != "FLOAT2"@) by { assert("GUID"@.len() != "FLOAT2"@.len()); }
    assert("GUID"@ != "FLOAT3"@) by { assert("GUID"@.len() != "FLOAT3"@.len()); }
    assert("GUID"@ != "FLOAT4"@) by { assert("GUID"@.len() != "FLOAT4"@.len()); }
    assert("GUID"@ != "ENUM"@) by { assert("GUID"@[0] != "ENUM"@[0]); }
    assert("GUID"@ != "FILETIME"@) by { assert("GUID"@.len() != "FILETIME"@.len()); }
}

proof fn lemma_guid_layout()
    ensures
        layout_of("GUID"@) == Some(seq![Field::Guid]),
{
    reveal_strlit("ULONG");
    reveal_strlit("LONG");
    reveal_strlit("LONG2");
    reveal_strlit("LONG4");
    reveal_strlit("BOOL");
    reveal_strlit("DOUBLE");
    reveal_strlit("BYTE4");
    reveal_strlit("GUID");
    assert("GUID"@ != "ULONG"@) by { assert("GUID"@.len() != "ULONG"@.len()); }
    assert("GUID"@ != "LONG"@) by { assert("GUID"@[0] != "LONG"@[0]); }
    assert("GUID"@ != "LONG2"@) by { assert("GUID"@.len() != "LONG2"@.len()); }
    assert("GUID"@ != "LONG4"@) by { assert("GUID"@.len() != "LONG4"@.len()); }
    assert("GUID"@ != "BOOL"@) by { assert("GUID"@[0] != "BOOL"@[0]); }
    assert("GUID"@ != "DOUBLE"@) by { assert("GUID"@.len() != "DOUBLE"@.len()); }
    assert("GUID"@ != "BYTE4"@) by { assert("GUID"@.len() != "BYTE4"@.len()); }
}

proof fn lemma_guid_fields(d: Seq<u8>, p: int)
    ensures
        layout_size(seq![Field::Guid]) == 16,
        layout_scalars(d, p, seq![Field::Guid]) == seq![
            ScalarView::Text(guid_braced_upper(d.subrange(p, p + 16))),
        ],
{
    let fs = seq![Field::Guid];
    reveal_with_fuel(layout_scalars, 2);
    reveal_with_fuel(layout_size, 2);
    assert(layout_scalars(d, p, fs) =~= seq![
        ScalarView::Text(guid_braced_upper(d.subrange(p, p + 16))),
    ]);
}

proof fn lemma_value_guid(d: Seq<u8>, t: TextTable, p: int, def: DefView, size: int)
    ensures
        upper_seq(def.value_type) == "GUID"@ ==> property_value(d, t, p, def, size) == value_of_size(
            d,
            p,
            16,
            seq![
                ScalarView::Text(guid_braced_upper(d.subrange(p, p + 16))),
            ],
        ),
{
    if upper_seq(def.value_type) == "GUID"@ {
        lemma_guid_is_fixed_size();
        lemma_guid_layout();
        lemma_guid_fields(d, p);
        lemma_fixed_size_value(d, t, p, def, size);
    }
}

proof fn lemma_outputvalue_is_fixed_size()
    ensures
        "OUTPUTVALUE"@ != "TEXT"@,
        "OUTPUTVALUE"@ != "MLTEXT"@,
        "OUTPUTVALUE"@ != "BEZIERCURVE"@,
        "OUTPUTVALUE"@ != "FLOAT"@,
        "OUTPUTVALUE"@ != "FLOAT2"@,
        "OUTPUTVALUE"@ != "FLOAT3"@,
        "OUTPUTVALUE"@ != "FLOAT4"@,
        "OUTPUTVALUE"@ != "ENUM"@,
        "OUTPUTVALUE"@ != "FILETIME"@,
{
    reveal_strlit("TEXT");
    reveal_strlit("MLTEXT");
    reveal_strlit("BEZIERCURVE");
    reveal_strlit("FLOAT");
    reveal_strlit("FLOAT2");
    reveal_strlit("FLOAT3");
    reveal_strlit("FLOAT4");
    reveal_strlit("ENUM");
    reveal_strlit("FILETIME");
    reveal_strlit("OUTPUTVALUE");
    assert("OUTPUTVALUE"@ != "TEXT"@) by { assert("OUTPUTVALUE"@.len() != "TEXT"@.len()); }
    assert("OUTPUTVALUE"@ != "MLTEXT"@) by { assert("OUTPUTVALUE"@.len() != "MLTEXT"@.len()); }
    assert("OUTPUTVALUE"@ != "BEZIERCURVE"@) by { assert("OUTPUTVALUE"@[0] != "BEZIERCURVE"@[0]); }
    assert("OUTPUTVALUE"@ != "FLOAT"@) by { assert("OUTPUTVALUE"@.len() != "FLOAT"@.len()); }
    assert("OUTPUTVALUE"@ != "FLOAT2"@) by { assert("OUTPUTVALUE"@.len() != "FLOAT2"@.len()); }
    assert("OUTPUTVALUE"@ != "FLOAT3"@) by { assert("OUTPUTVALUE"@.len() != "FLOAT3"@.len()); }
    assert("OUTPUTVALUE"@ != "FLOAT4"@) by { assert("OUTPUTVALUE"@.len() != "FLOAT4"@.len()); }
    assert("OUTPUTVALUE"@ != "ENUM"@) by { assert("OUTPUTVALUE"@.len() != "ENUM"@.len()); }
    assert("OUTPUTVALUE"@ != "FILETIME"@) by { assert("OUTPUTVALUE"@.len() != "FILETIME"@.len()); }
}

proof fn lemma_outputvalue_layout()
    ensures
        layout_of("OUTPUTVALUE"@) == Some(seq![Field::Guid]),
{
    reveal_strlit("ULONG");
    reveal_strlit("LONG");
    reveal_strlit("LONG2");
    reveal_strlit("LONG4");
    reveal_strlit("BOOL");
    reveal_strlit("DOUBLE");
    reveal_strlit("BYTE4");
    reveal_strlit("GUID");
    reveal_strlit("OUTPUTVALUE");
    assert("OUTPUTVALUE"@ != "ULONG"@) by { assert("OUTPUTVALUE"@.len() != "ULONG"@.len()); }
    assert("OUTPUTVALUE"@ != "LONG"@) by { assert("OUTPUTVALUE"@.len() != "LONG"@.len()); }
    assert("OUTPUTVALUE"@ != "LONG2"@) by { assert("OUTPUTVALUE"@.len() != "LONG2"@.len()); }
    assert("OUTPUTVALUE"@ != "LONG4"@) by { assert("OUTPUTVALUE"@.len() != "LONG4"@.len()); }
    assert("OUTPUTVALUE"@ != "BOOL"@) by { assert("OUTPUTVALUE"@.len() != "BOOL"@.len()); }
    assert("OUTPUTVALUE"@ != "DOUBLE"@) by { assert("OUTPUTVALUE"@.len() != "DOUBLE"@.len()); }
    assert("OUTPUTVALUE"@ != "BYTE4"@) by { assert("OUTPUTVALUE"@.len() != "BYTE4"@.len()); }
    assert("OUTPUTVALUE"@ != "GUID"@) by { assert("OUTPUTVALUE"@.len() != "GUID"@.len()); }
}

proof fn lemma_outputvalue_fields(d: Seq<u8>, p: int)
    ensures
        layout_size(seq![Field::Guid]) == 16,
        layout_scalars(d, p, seq![Field::Guid]) == seq![
            ScalarView::Text(guid_braced_upper(d.subrange(p, p + 16))),
        ],
{
    let fs = seq![Field::Guid];
    reveal_with_fuel(layout_scalars, 2);
    reveal_with_fuel(layout_size, 2);
    assert(layout_scalars(d, p, fs) =~= seq![
        ScalarView::Text(guid_braced_upper(d.subrange(p, p + 16))),
    ]);
}

proof fn lemma_value_outputvalue(d: Seq<u8>, t: TextTable, p: int, def: DefView, size: int)
    ensures
        upper_seq(def.value_type) == "OUTPUTVALUE"@ ==> property_value(d, t, p, def, size) == value_of_size(
            d,
            p,
            16,
            seq![
                ScalarView::Text(guid_braced_upper(d.subrange(p, p + 16))),
            ],
        ),
{
    if upper_seq(def.value_type) == "OUTPUTVALUE"@ {
        lemma_outputvalue_is_fixed_size();
        lemma_outputvalue_layout();
        lemma_outputvalue_fields(d, p);
        lemma_fixed_size_value(d, t, p, def, size);
    }
}

proof fn lemma_inputbool_is_fixed_size()
    ensures
        "INPUTBOOL"@ != "TEXT"@,
        "INPUTBOOL"@ != "MLTEXT"@,
        "INPUTBOOL"@ != "BEZIERCURVE"@,
        "INPUTBOOL"@ != "FLOAT"@,
        "INPUTBOOL"@ != "FLOAT2"@,
        "INPUTBOOL"@ != "FLOAT3"@,
        "INPUTBOOL"@ != "FLOAT4"@,
        "INPUTBOOL"@ != "ENUM"@,
        "INPUTBOOL"@ != "FILETIME"@,
{
    reveal_strlit("TEXT");
    reveal_strlit("MLTEXT");
    reveal_strlit("BEZIERCURVE");
    reveal_strlit("FLOAT");
    reveal_strlit("FLOAT2");
    reveal_strlit("FLOAT3");
    reveal_strlit("FLOAT4");
    reveal_strlit("ENUM");
    reveal_strlit("FILETIME");
    reveal_strlit("INPUTBOOL");
    assert("INPUTBOOL"@ != "TEXT"@) by { assert("INPUTBOOL"@.len() != "TEXT"@.len()); }
    assert("INPUTBOOL"@ != "MLTEXT"@) by { assert("INPUTBOOL"@.len() != "MLTEXT"@.len()); }
    assert("INPUTBOOL"@ != "BEZIERCURVE"@) by { assert("INPUTBOOL"@.len() != "BEZIERCURVE"@.len()); }
    assert("INPUTBOOL"@ != "FLOAT"@) by { assert("INPUTBOOL"@.len() != "FLOAT"@.len()); }
    assert("INPUTBOOL"@ != "FLOAT2"@) by { assert("INPUTBOOL"@.len() != "FLOAT2"@.len()); }
    assert("INPUTBOOL"@ != "FLOAT3"@) by { assert("INPUTBOOL"@.len() != "FLOAT3"@.len()); }
    assert("INPUTBOOL"@ != "FLOAT4"@) by { assert("INPUTBOOL"@.len() != "FLOAT4"@.len()); }
    assert("INPUTBOOL"@ != "ENUM"@) by { assert("INPUTBOOL"@.len() != "ENUM"@.len()); }
    assert("INPUTBOOL"@ != "FILETIME"@) by { assert("INPUTBOOL"@.len() != "FILETIME"@.len()); }
}

proof fn lemma_inputbool_layout()
    ensures
        layout_of("INPUTBOOL"@) == Some(seq![Field::Guid, Field::Bool]),
{
    reveal_strlit("ULONG");
    reveal_strlit("LONG");
    reveal_strlit("LONG2");
    reveal_strlit("LONG4");
    reveal_strlit("BOOL");
    reveal_strlit("DOUBLE");
    reveal_strlit("BYTE4");
    reveal_strlit("GUID");
    reveal_strlit("OUTPUTVALUE");
    reveal_strlit("INPUTBOOL");
    assert("INPUTBOOL"@ != "ULONG"@) by { assert("INPUTBOOL"@.len() != "ULONG"@.len()); }
    assert("INPUTBOOL"@ != "LONG"@) by { assert("INPUTBOOL"@.len() != "LONG"@.len()); }
    assert("INPUTBOOL"@ != "LONG2"@) by { assert("INPUTBOOL"@.len() != "LONG2"@.len()); }
    assert("INPUTBOOL"@ != "LONG4"@) by { assert("INPUTBOOL"@.len() != "LONG4"@.len()); }
    assert("INPUTBOOL"@ != "BOOL"@) by { assert("INPUTBOOL"@.len() != "BOOL"@.len()); }
    assert("INPUTBOOL"@ != "DOUBLE"@) by { assert("INPUTBOOL"@.len() != "DOUBLE"@.len()); }
    assert("INPUTBOOL"@ != "BYTE4"@) by { assert("INPUTBOOL"@.len() != "BYTE4"@.len()); }
    assert("INPUTBOOL"@ != "GUID"@) by { assert("INPUTBOOL"@.len() != "GUID"@.len()); }
    assert("INPUTBOOL"@ != "OUTPUTVALUE"@) by { assert("INPUTBOOL"@.len() != "OUTPUTVALUE"@.len()); }
}

proof fn lemma_inputbool_fields(d: Seq<u8>, p: int)
    ensures
        layout_size(seq![Field::Guid, Field::Bool]) == 20,
        layout_scalars(d, p, seq![Field::Guid, Field::Bool]) == seq![
            ScalarView::Text(guid_braced_upper(d.subrange(p, p + 16))),
            ScalarView::Text(if i32_at(d, p + 16) == 1 { "true"@ } else { "false"@ }),
        ],
{
    let fs = seq![Field::Guid, Field::Bool];
    reveal_with_fuel(layout_scalars, 3);
    reveal_with_fuel(layout_size, 3);
    reveal_strlit("true");
    reveal_strlit("false");
    assert(layout_scalars(d, p, fs) =~= seq![
        ScalarView::Text(guid_braced_upper(d.subrange(p, p + 16))),
        ScalarView::Text(if i32_at(d, p + 16) == 1 { "true"@ } else { "false"@ }),
    ]);
}

proof fn lemma_value_inputbool(d: Seq<u8>, t: TextTable, p: int, def: DefView, size: int)
    ensures
        upper_seq(def.value_type) == "INPUTBOOL"@ ==> property_value(d, t, p, def, size) == value_of_size(
            d,
            p,
            20,
            seq![
                ScalarView::Text(guid_braced_upper(d.subrange(p, p + 16))),
                ScalarView::Text(if i32_at(d, p + 16) == 1 { "true"@ } else { "false"@ }),
            ],
        ),
{
    if upper_seq(def.value_type) == "INPUTBOOL"@ {
        lemma_inputbool_is_fixed_size();
        lemma_inputbool_layout();
        lemma_inputbool_fields(d, p);
        lemma_fixed_size_value(d, t, p, def, size);
    }
}

proof fn lemma_inputlong_is_fixed_size()
    ensures
        "INPUTLONG"@ != "TEXT"@,
        "INPUTLONG"@ != "MLTEXT"@,
        "INPUTLONG"@ != "BEZIERCURVE"@,
        "INPUTLONG"@ != "FLOAT"@,
        "INPUTLONG"@ != "FLOAT2"@,
        "INPUTLONG"@ != "FLOAT3"@,
        "INPUTLONG"@ != "FLOAT4"@,
        "INPUTLONG"@ != "ENUM"@,
        "INPUTLONG"@ != "FILETIME"@,
{
    reveal_strlit("TEXT");
    reveal_strlit("MLTEXT");
    reveal_strlit("BEZIERCURVE");
    reveal_strlit("FLOAT");
    reveal_strlit("FLOAT2");
    reveal_strlit("FLOAT3");
    reveal_strlit("FLOAT4");
    reveal_strlit("ENUM");
    reveal_strlit("FILETIME");
    reveal_strlit("INPUTLONG");
    assert("INPUTLONG"@ != "TEXT"@) by { assert("INPUTLONG"@.len() != "TEXT"@.len()); }
    assert("INPUTLONG"@ != "MLTEXT"@) by { assert("INPUTLONG"@.len() != "MLTEXT"@.len()); }
    assert("INPUTLONG"@ != "BEZIERCURVE"@) by { assert("INPUTLONG"@.len() != "BEZIERCURVE"@.len()); }
    assert("INPUTLONG"@ != "FLOAT"@) by { assert("INPUTLONG"@.len() != "FLOAT"@.len()); }
    assert("INPUTLONG"@ != "FLOAT2"@) by { assert("INPUTLONG"@.len() != "FLOAT2"@.len()); }
    assert("INPUTLONG"@ != "FLOAT3"@) by { assert("INPUTLONG"@.len() != "FLOAT3"@.len()); }
    assert("INPUTLONG"@ != "FLOAT4"@) by { assert("INPUTLONG"@.len() != "FLOAT4"@.len()); }
    assert("INPUTLONG"@ != "ENUM"@) by { assert("INPUTLONG"@.len() != "ENUM"@.len()); }
    assert("INPUTLONG"@ != "FILETIME"@) by { assert("INPUTLONG"@.len() != "FILETIME"@.len()); }
}

proof fn lemma_inputlong_layout()
    ensures
        layout_of("INPUTLONG"@) == Some(seq![Field::Guid, Field::I32Dec]),
{
    reveal_strlit("ULONG");
    reveal_strlit("LONG");
    reveal_strlit("LONG2");
    reveal_strlit("LONG4");
    reveal_strlit("BOOL");
    reveal_strlit("DOUBLE");
    reveal_strlit("BYTE4");
    reveal_strlit("GUID");
    reveal_strlit("OUTPUTVALUE");
    reveal_strlit("INPUTBOOL");
    reveal_strlit("INPUTLONG");
    assert("INPUTLONG"@ != "ULONG"@) by { assert("INPUTLONG"@.len() != "ULONG"@.len()); }
    assert("INPUTLONG"@ != "LONG"@) by { assert("INPUTLONG"@.len() != "LONG"@.len()); }
    assert("INPUTLONG"@ != "LONG2"@) by { assert("INPUTLONG"@.len() != "LONG2"@.len()); }
    assert("INPUTLONG"@ != "LONG4"@) by { assert("INPUTLONG"@.len() != "LONG4"@.len()); }
    assert("INPUTLONG"@ != "BOOL"@) by { assert("INPUTLONG"@.len() != "BOOL"@.len()); }
    assert("INPUTLONG"@ != "DOUBLE"@) by { assert("INPUTLONG"@.len() != "DOUBLE"@.len()); }
    assert("INPUTLONG"@ != "BYTE4"@) by { assert("INPUTLONG"@.len() != "BYTE4"@.len()); }
    assert("INPUTLONG"@ != "GUID"@) by { assert("INPUTLONG"@.len() != "GUID"@.len()); }
    assert("INPUTLONG"@ != "OUTPUTVALUE"@) by { assert("INPUTLONG"@.len() != "OUTPUTVALUE"@.len()); }
    assert("INPUTLONG"@ != "INPUTBOOL"@) by { assert("INPUTLONG"@[5] != "INPUTBOOL"@[5]); }
}

proof fn lemma_inputlong_fields(d: Seq<u8>, p: int)
    ensures
        layout_size(seq![Field::Guid, Field::I32Dec]) == 20,
        layout_scalars(d, p, seq![Field::Guid, Field::I32Dec]) == seq![
            ScalarView::Text(guid_braced_upper(d.subrange(p, p + 16))),
            ScalarView::Text(decimal(i32_at(d, p + 16))),
        ],
{
    let fs = seq![Field::Guid, Field::I32Dec];
    reveal_with_fuel(layout_scalars, 3);
    reveal_with_fuel(layout_size, 3);
    assert(layout_scalars(d, p, fs) =~= seq![
        ScalarView::Text(guid_braced_upper(d.subrange(p, p + 16))),
        ScalarView::Text(decimal(i32_at(d, p + 16))),
    ]);
}

proof fn lemma_value_inputlong(d: Seq<u8>, t: TextTable, p: int, def: DefView, size: int)
    ensures
        upper_seq(def.value_type) == "INPUTLONG"@ ==> property_value(d, t, p, def, size) == value_of_size(
            d,
            p,
            20,
            seq![
                ScalarView::Text(guid_braced_upper(d.subrange(p, p + 16))),
                ScalarView::Text(decimal(i32_at(d, p + 16))),
            ],
        ),
{
    if upper_seq(def.value_type) == "INPUTLONG"@ {
        lemma_inputlong_is_fixed_size();
        lemma_inputlong_layout();
        lemma_inputlong_fields(d, p);
        lemma_fixed_size_value(d, t, p, def, size);
    }
}

proof fn lemma_inputulong_is_fixed_size()
    ensures
        "INPUTULONG"@ != "TEXT"@,
        "INPUTULONG"@ != "MLTEXT"@,
        "INPUTULONG"@ != "BEZIERCURVE"@,
        "INPUTULONG"@ != "FLOAT"@,
        "INPUTULONG"@ != "FLOAT2"@,
        "INPUTULONG"@ != "FLOAT3"@,
        "INPUTULONG"@ != "FLOAT4"@,
        "INPUTULONG"@ != "ENUM"@,
        "INPUTULONG"@ != "FILETIME"@,
{
    reveal_strlit("TEXT");
    reveal_strlit("MLTEXT");
    reveal_strlit("BEZIERCURVE");
    reveal_strlit("FLOAT");
    reveal_strlit("FLOAT2");
    reveal_strlit("FLOAT3");
    reveal_strlit("FLOAT4");
    reveal_strlit("ENUM");
    reveal_strlit("FILETIME");
    reveal_strlit("INPUTULONG");
    assert("INPUTULONG"@ != "TEXT"@) by { assert("INPUTULONG"@.len() != "TEXT"@.len()); }
    assert("INPUTULONG"@ != "MLTEXT"@) by { assert("INPUTULONG"@.len() != "MLTEXT"@.len()); }
    assert("INPUTULONG"@ != "BEZIERCURVE"@) by { assert("INPUTULONG"@.len() != "BEZIERCURVE"@.len()); }
    assert("INPUTULONG"@ != "FLOAT"@) by { assert("INPUTULONG"@.len() != "FLOAT"@.len()); }
    assert("INPUTULONG"@ != "FLOAT2"@) by { assert("INPUTULONG"@.len() != "FLOAT2"@.len()); }
    assert("INPUTULONG"@ != "FLOAT3"@) by { assert("INPUTULONG"@.len() != "FLOAT3"@.len()); }
    assert("INPUTULONG"@ != "FLOAT4"@) by { assert("INPUTULONG"@.len() != "FLOAT4"@.len()); }
    assert("INPUTULONG"@ != "ENUM"@) by { assert("INPUTULONG"@.len() != "ENUM"@.len()); }
    assert("INPUTULONG"@ != "FILETIME"@) by { assert("INPUTULONG"@.len() != "FILETIME"@.len()); }
}

proof fn lemma_inputulong_layout()
    ensures
        layout_of("INPUTULONG"@) == Some(seq![Field::Guid, Field::U32Dec]),
{
    reveal_strlit("ULONG");
    reveal_strlit("LONG");
    reveal_strlit("LONG2");
    reveal_strlit("LONG4");
    reveal_strlit("BOOL");
    reveal_strlit("DOUBLE");
    reveal_strlit("BYTE4");
    reveal_strlit("GUID");
    reveal_strlit("OUTPUTVALUE");
    reveal_strlit("INPUTBOOL");
    reveal_strlit("INPUTLONG");
    reveal_strlit("INPUTULONG");
    assert("INPUTULONG"@ != "ULONG"@) by { assert("INPUTULONG"@.len() != "ULONG"@.len()); }
    assert("INPUTULONG"@ != "LONG"@) by { assert("INPUTULONG"@.len() != "LONG"@.len()); }
    assert("INPUTULONG"@ != "LONG2"@) by { assert("INPUTULONG"@.len() != "LONG2"@.len()); }
    assert("INPUTULONG"@ != "LONG4"@) by { assert("INPUTULONG"@.len() != "LONG4"@.len()); }
    assert("INPUTULONG"@ != "BOOL"@) by { assert("INPUTULONG"@.len() != "BOOL"@.len()); }
    assert("INPUTULONG"@ != "DOUBLE"@) by { assert("INPUTULONG"@.len() != "DOUBLE"@.len()); }
    assert("INPUTULONG"@ != "BYTE4"@) by { assert("INPUTULONG"@.len() != "BYTE4"@.len()); }
    assert("INPUTULONG"@ != "GUID"@) by { assert("INPUTULONG"@.len() != "GUID"@.len()); }
    assert("INPUTULONG"@ != "OUTPUTVALUE"@) by { assert("INPUTULONG"@.len() != "OUTPUTVALUE"@.len()); }
    assert("INPUTULONG"@ != "INPUTBOOL"@) by { assert("INPUTULONG"@.len() != "INPUTBOOL"@.len()); }
    assert("INPUTULONG"@ != "INPUTLONG"@) by { assert("INPUTULONG"@.len() != "INPUTLONG"@.len()); }
}

proof fn lemma_inputulong_fields(d: Seq<u8>, p: int)
    ensures
        layout_size(seq![Field::Guid, Field::U32Dec]) == 20,
        layout_scalars(d, p, seq![Field::Guid, Field::U32Dec]) == seq![
            ScalarView::Text(guid_braced_upper(d.subrange(p, p + 16))),
            ScalarView::Text(decimal(u32_at(d, p + 16))),
        ],
{
    let fs = seq![Field::Guid, Field::U32Dec];
    reveal_with_fuel(layout_scalars, 3);
    reveal_with_fuel(layout_size, 3);
    assert(layout_scalars(d, p, fs) =~= seq![
        ScalarView::Text(guid_braced_upper(d.subrange(p, p + 16))),
        ScalarView::Text(decimal(u32_at(d, p + 16))),
    ]);
}

proof fn lemma_value_inputulong(d: Seq<u8>, t: TextTable, p: int, def: DefView, size: int)
    ensures
        upper_seq(def.value_type) == "INPUTULONG"@ ==> property_value(d, t, p, def, size) == value_of_size(
            d,
            p,
            20,
            seq![
                ScalarView::Text(guid_braced_upper(d.subrange(p, p + 16))),
                ScalarView::Text(decimal(u32_at(d, p + 16))),
            ],
        ),
{
    if upper_seq(def.value_type) == "INPUTULONG"@ {
        lemma_inputulong_is_fixed_size();
        lemma_inputulong_layout();
        lemma_inputulong_fields(d, p);
        lemma_fixed_size_value(d, t, p, def, size);
    }
}

proof fn lemma_inputvariant_is_fixed_size()
    ensures
        "INPUTVARIANT"@ != "TEXT"@,
        "INPUTVARIANT"@ != "MLTEXT"@,
        "INPUTVARIANT"@ != "BEZIERCURVE"@,
        "INPUTVARIANT"@ != "FLOAT"@,
        "INPUTVARIANT"@ != "FLOAT2"@,
        "INPUTVARIANT"@ != "FLOAT3"@,
        "INPUTVARIANT"@ != "FLOAT4"@,
        "INPUTVARIANT"@ != "ENUM"@,
        "INPUTVARIANT"@ != "FILETIME"@,
{
    reveal_strlit("TEXT");
    reveal_strlit("MLTEXT");
    reveal_strlit("BEZIERCURVE");
    reveal_strlit("FLOAT");
    reveal_strlit("FLOAT2");
    reveal_strlit("FLOAT3");
    reveal_strlit("FLOAT4");
    reveal_strlit("ENUM");
    reveal_strlit("FILETIME");
    reveal_strlit("INPUTVARIANT");
    assert("INPUTVARIANT"@ != "TEXT"@) by { assert("INPUTVARIANT"@.len() != "TEXT"@.len()); }
    assert("INPUTVARIANT"@ != "MLTEXT"@) by { assert("INPUTVARIANT"@.len() != "MLTEXT"@.len()); }
    assert("INPUTVARIANT"@ != "BEZIERCURVE"@) by { assert("INPUTVARIANT"@.len() != "BEZIERCURVE"@.len()); }
    assert("INPUTVARIANT"@ != "FLOAT"@) by { assert("INPUTVARIANT"@.len() != "FLOAT"@.len()); }
    assert("INPUTVARIANT"@ != "FLOAT2"@) by { assert("INPUTVARIANT"@.len() != "FLOAT2"@.len()); }
    assert("INPUTVARIANT"@ != "FLOAT3"@) by { assert("INPUTVARIANT"@.len() != "FLOAT3"@.len()); }
    assert("INPUTVARIANT"@ != "FLOAT4"@) by { assert("INPUTVARIANT"@.len() != "FLOAT4"@.len()); }
    assert("INPUTVARIANT"@ != "ENUM"@) by { assert("INPUTVARIANT"@.len() != "ENUM"@.len()); }
    assert("INPUTVARIANT"@ != "FILETIME"@) by { assert("INPUTVARIANT"@.len() != "FILETIME"@.len()); }
}

proof fn lemma_inputvariant_layout()
    ensures
        layout_of("INPUTVARIANT"@) == Some(seq![Field::Guid, Field::Single]),
{
    reveal_strlit("ULONG");
    reveal_strlit("LONG");
    reveal_strlit("LONG2");
    reveal_strlit("LONG4");
    reveal_strlit("BOOL");
    reveal_strlit("DOUBLE");
    reveal_strlit("BYTE4");
    reveal_strlit("GUID");
    reveal_strlit("OUTPUTVALUE");
    reveal_strlit("INPUTBOOL");
    reveal_strlit("INPUTLONG");
    reveal_strlit("INPUTULONG");
    reveal_strlit("INPUTVARIANT");
    assert("INPUTVARIANT"@ != "ULONG"@) by { assert("INPUTVARIANT"@.len() != "ULONG"@.len()); }
    assert("INPUTVARIANT"@ != "LONG"@) by { assert("INPUTVARIANT"@.len() != "LONG"@.len()); }
    assert("INPUTVARIANT"@ != "LONG2"@) by { assert("INPUTVARIANT"@.len() != "LONG2"@.len()); }
    assert("INPUTVARIANT"@ != "LONG4"@) by { assert("INPUTVARIANT"@.len() != "LONG4"@.len()); }
    assert("INPUTVARIANT"@ != "BOOL"@) by { assert("INPUTVARIANT"@.len() != "BOOL"@.len()); }
    assert("INPUTVARIANT"@ != "DOUBLE"@) by { assert("INPUTVARIANT"@.len() != "DOUBLE"@.len()); }
    assert("INPUTVARIANT"@ != "BYTE4"@) by { assert("INPUTVARIANT"@.len() != "BYTE4"@.len()); }
    assert("INPUTVARIANT"@ != "GUID"@) by { assert("INPUTVARIANT"@.len() != "GUID"@.len()); }
    assert("INPUTVARIANT"@ != "OUTPUTVALUE"@) by { assert("INPUTVARIANT"@.len() != "OUTPUTVALUE"@.len()); }
    assert("INPUTVARIANT"@ != "INPUTBOOL"@) by { assert("INPUTVARIANT"@.len() != "INPUTBOOL"@.len()); }
    assert("INPUTVARIANT"@ != "INPUTLONG"@) by { assert("INPUTVARIANT"@.len() != "INPUTLONG"@.len()); }
    assert("INPUTVARIANT"@ != "INPUTULONG"@) by { assert("INPUTVARIANT"@.len() != "INPUTULONG"@.len()); }
}

proof fn lemma_inputvariant_fields(d: Seq<u8>, p: int)
    ensures
        layout_size(seq![Field::Guid, Field::Single]) == 20,
        layout_scalars(d, p, seq![Field::Guid, Field::Single]) == seq![
            ScalarView::Text(guid_braced_upper(d.subrange(p, p + 16))),
            ScalarView::Single(u32_at(d, p + 16) as u32),
        ],
{
    let fs = seq![Field::Guid, Field::Single];
    reveal_with_fuel(layout_scalars, 3);
    reveal_with_fuel(layout_size, 3);
    assert(layout_scalars(d, p, fs) =~= seq![
        ScalarView::Text(guid_braced_upper(d.subrange(p, p + 16))),
        ScalarView::Single(u32_at(d, p + 16) as u32),
    ]);
}

proof fn lemma_value_inputvariant(d: Seq<u8>, t: TextTable, p: int, def: DefView, size: int)
    ensures
        upper_seq(def.value_type) == "INPUTVARIANT"@ ==> property_value(d, t, p, def, size) == value_of_size(
            d,
            p,
            20,
            seq![
                ScalarView::Text(guid_braced_upper(d.subrange(p, p + 16))),
                ScalarView::Single(u32_at(d, p + 16) as u32),
            ],
        ),
{
    if upper_seq(def.value_type) == "INPUTVARIANT"@ {
        lemma_inputvariant_is_fixed_size();
        lemma_inputvariant_layout();
        lemma_inputvariant_fields(d, p);
        lemma_fixed_size_value(d, t, p, def, size);
    }
}

proof fn lemma_inputfloat_is_fixed_size()
    ensures
        "INPUTFLOAT"@ != "TEXT"@,
        "INPUTFLOAT"@ != "MLTEXT"@,
        "INPUTFLOAT"@ != "BEZIERCURVE"@,
        "INPUTFLOAT"@ != "FLOAT"@,
        "INPUTFLOAT"@ != "FLOAT2"@,
        "INPUTFLOAT"@ != "FLOAT3"@,
        "INPUTFLOAT"@ != "FLOAT4"@,
        "INPUTFLOAT"@ != "ENUM"@,
        "INPUTFLOAT"@ != "FILETIME"@,
{
    reveal_strlit("TEXT");
    reveal_strlit("MLTEXT");
    reveal_strlit("BEZIERCURVE");
    reveal_strlit("FLOAT");
    reveal_strlit("FLOAT2");
    reveal_strlit("FLOAT3");
    reveal_strlit("FLOAT4");
    reveal_strlit("ENUM");
    reveal_strlit("FILETIME");
    reveal_strlit("INPUTFLOAT");
    assert("INPUTFLOAT"@ != "TEXT"@) by { assert("INPUTFLOAT"@.len() != "TEXT"@.len()); }
    assert("INPUTFLOAT"@ != "MLTEXT"@) by { assert("INPUTFLOAT"@.len() != "MLTEXT"@.len()); }
    assert("INPUTFLOAT"@ != "BEZIERCURVE"@) by { assert("INPUTFLOAT"@.len() != "BEZIERCURVE"@.len()); }
    assert("INPUTFLOAT"@ != "FLOAT"@) by { assert("INPUTFLOAT"@.len() != "FLOAT"@.len()); }
    assert("INPUTFLOAT"@ != "FLOAT2"@) by { assert("INPUTFLOAT"@.len() != "FLOAT2"@.len()); }
    assert("INPUTFLOAT"@ != "FLOAT3"@) by { assert("INPUTFLOAT"@.len() != "FLOAT3"@.len()); }
    assert("INPUTFLOAT"@ != "FLOAT4"@) by { assert("INPUTFLOAT"@.len() != "FLOAT4"@.len()); }
    assert("INPUTFLOAT"@ != "ENUM"@) by { assert("INPUTFLOAT"@.len() != "ENUM"@.len()); }
    assert("INPUTFLOAT"@ != "FILETIME"@) by { assert("INPUTFLOAT"@.len() != "FILETIME"@.len()); }
}

proof fn lemma_inputfloat_layout()
    ensures
        layout_of("INPUTFLOAT"@) == Some(seq![Field::Guid, Field::Single]),
{
    reveal_strlit("ULONG");
    reveal_strlit("LONG");
    reveal_strlit("LONG2");
    reveal_strlit("LONG4");
    reveal_strlit("BOOL");
    reveal_strlit("DOUBLE");
    reveal_strlit("BYTE4");
    reveal_strlit("GUID");
    reveal_strlit("OUTPUTVALUE");
    reveal_strlit("INPUTBOOL");
    reveal_strlit("INPUTLONG");
    reveal_strlit("INPUTULONG");
    reveal_strlit("INPUTVARIANT");
    reveal_strlit("INPUTFLOAT");
    assert("INPUTFLOAT"@ != "ULONG"@) by { assert("INPUTFLOAT"@.len() != "ULONG"@.len()); }
    assert("INPUTFLOAT"@ != "LONG"@) by { assert("INPUTFLOAT"@.len() != "LONG"@.len()); }
    assert("INPUTFLOAT"@ != "LONG2"@) by { assert("INPUTFLOAT"@.len() != "LONG2"@.len()); }
    assert("INPUTFLOAT"@ != "LONG4"@) by { assert("INPUTFLOAT"@.len() != "LONG4"@.len()); }
    assert("INPUTFLOAT"@ != "BOOL"@) by { assert("INPUTFLOAT"@.len() != "BOOL"@.len()); }
    assert("INPUTFLOAT"@ != "DOUBLE"@) by { assert("INPUTFLOAT"@.len() != "DOUBLE"@.len()); }
    assert("INPUTFLOAT"@ != "BYTE4"@) by { assert("INPUTFLOAT"@.len() != "BYTE4"@.len()); }
    assert("INPUTFLOAT"@ != "GUID"@) by { assert("INPUTFLOAT"@.len() != "GUID"@.len()); }
    assert("INPUTFLOAT"@ != "OUTPUTVALUE"@) by { assert("INPUTFLOAT"@.len() != "OUTPUTVALUE"@.len()); }
    assert("INPUTFLOAT"@ != "INPUTBOOL"@) by { assert("INPUTFLOAT"@.len() != "INPUTBOOL"@.len()); }
    assert("INPUTFLOAT"@ != "INPUTLONG"@) by { assert("INPUTFLOAT"@.len() != "INPUTLONG"@.len()); }
    assert("INPUTFLOAT"@ != "INPUTULONG"@) by { assert("INPUTFLOAT"@[5] != "INPUTULONG"@[5]); }
    assert("INPUTFLOAT"@ != "INPUTVARIANT"@) by { assert("INPUTFLOAT"@.len() != "INPUTVARIANT"@.len()); }
}

proof fn lemma_inputfloat_fields(d: Seq<u8>, p: int)
    ensures
        layout_size(seq![Field::Guid, Field::Single]) == 20,
        layout_scalars(d, p, seq![Field::Guid, Field::Single]) == seq![
            ScalarView::Text(guid_braced_upper(d.subrange(p, p + 16))),
            ScalarView::Single(u32_at(d, p + 16) as u32),
        ],
{
    let fs = seq![Field::Guid, Field::Single];
    reveal_with_fuel(layout_scalars, 3);
    reveal_with_fuel(layout_size, 3);
    assert(layout_scalars(d, p, fs) =~= seq![
        ScalarView::Text(guid_braced_upper(d.subrange(p, p + 16))),
        ScalarView::Single(u32_at(d, p + 16) as u32),
    ]);
}

proof fn lemma_value_inputfloat(d: Seq<u8>, t: TextTable, p: int, def: DefView, size: int)
    ensures
        upper_seq(def.value_type) == "INPUTFLOAT"@ ==> property_value(d, t, p, def, size) == value_of_size(
            d,
            p,
            20,
            seq![
                ScalarView::Text(guid_braced_upper(d.subrange(p, p + 16))),
                ScalarView::Single(u32_at(d, p + 16) as u32),
            ],
        ),
{
    if upper_seq(def.value_type) == "INPUTFLOAT"@ {
        lemma_inputfloat_is_fixed_size();
        lemma_inputfloat_layout();
        lemma_inputfloat_fields(d, p);
        lemma_fixed_size_value(d, t, p, def, size);
    }
}

proof fn lemma_inputfloat2_is_fixed_size()
    ensures
        "INPUTFLOAT2"@ != "TEXT"@,
        "INPUTFLOAT2"@ != "MLTEXT"@,
        "INPUTFLOAT2"@ != "BEZIERCURVE"@,
        "INPUTFLOAT2"@ != "FLOAT"@,
        "INPUTFLOAT2"@ != "FLOAT2"@,
        "INPUTFLOAT2"@ != "FLOAT3"@,
        "INPUTFLOAT2"@ != "FLOAT4"@,
        "INPUTFLOAT2"@ != "ENUM"@,
        "INPUTFLOAT2"@ != "FILETIME"@,
{
    reveal_strlit("TEXT");
    reveal_strlit("MLTEXT");
    reveal_strlit("BEZIERCURVE");
    reveal_strlit("FLOAT");
    reveal_strlit("FLOAT2");
    reveal_strlit("FLOAT3");
    reveal_strlit("FLOAT4");
    reveal_strlit("ENUM");
    reveal_strlit("FILETIME");
    reveal_strlit("INPUTFLOAT2");
    assert("INPUTFLOAT2"@ != "TEXT"@) by { assert("INPUTFLOAT2"@.len() != "TEXT"@.len()); }
    assert("INPUTFLOAT2"@ != "MLTEXT"@) by { assert("INPUTFLOAT2"@.len() != "MLTEXT"@.len()); }
    assert("INPUTFLOAT2"@ != "BEZIERCURVE"@) by { assert("INPUTFLOAT2"@[0] != "BEZIERCURVE"@[0]); }
    assert("INPUTFLOAT2"@ != "FLOAT"@) by { assert("INPUTFLOAT2"@.len() != "FLOAT"@.len()); }
    assert("INPUTFLOAT2"@ != "FLOAT2"@) by { assert("INPUTFLOAT2"@.len() != "FLOAT2"@.len()); }
    assert("INPUTFLOAT2"@ != "FLOAT3"@) by { assert("INPUTFLOAT2"@.len() != "FLOAT3"@.len()); }
    assert("INPUTFLOAT2"@ != "FLOAT4"@) by { assert("INPUTFLOAT2"@.len() != "FLOAT4"@.len()); }
    assert("INPUTFLOAT2"@ != "ENUM"@) by { assert("INPUTFLOAT2"@.len() != "ENUM"@.len()); }
    assert("INPUTFLOAT2"@ != "FILETIME"@) by { assert("INPUTFLOAT2"@.len() != "FILETIME"@.len()); }
}

proof fn lemma_inputfloat2_layout()
    ensures
        layout_of("INPUTFLOAT2"@) == Some(seq![Field::Guid, Field::Single, Field::Single]),
{
    reveal_strlit("ULONG");
    reveal_strlit("LONG");
    reveal_strlit("LONG2");
    reveal_strlit("LONG4");
    reveal_strlit("BOOL");
    reveal_strlit("DOUBLE");
    reveal_strlit("BYTE4");
    reveal_strlit("GUID");
    reveal_strlit("OUTPUTVALUE");
    reveal_strlit("INPUTBOOL");
    reveal_strlit("INPUTLONG");
    reveal_strlit("INPUTULONG");
    reveal_strlit("INPUTVARIANT");
    reveal_strlit("INPUTFLOAT");
    reveal_strlit("INPUTFLOAT2");
    assert("INPUTFLOAT2"@ != "ULONG"@) by { assert("INPUTFLOAT2"@.len() != "ULONG"@.len()); }
    assert("INPUTFLOAT2"@ != "LONG"@) by { assert("INPUTFLOAT2"@.len() != "LONG"@.len()); }
    assert("INPUTFLOAT2"@ != "LONG2"@) by { assert("INPUTFLOAT2"@.len() != "LONG2"@.len()); }
    assert("INPUTFLOAT2"@ != "LONG4"@) by { assert("INPUTFLOAT2"@.len() != "LONG4"@.len()); }
    assert("INPUTFLOAT2"@ != "BOOL"@) by { assert("INPUTFLOAT2"@.len() != "BOOL"@.len()); }
    assert("INPUTFLOAT2"@ != "DOUBLE"@) by { assert("INPUTFLOAT2"@.len() != "DOUBLE"@.len()); }
    assert("INPUTFLOAT2"@ != "BYTE4"@) by { assert("INPUTFLOAT2"@.len() != "BYTE4"@.len()); }
    assert("INPUTFLOAT2"@ != "GUID"@) by { assert("INPUTFLOAT2"@.len() != "GUID"@.len()); }
    assert("INPUTFLOAT2"@ != "OUTPUTVALUE"@) by { assert("INPUTFLOAT2"@[0] != "OUTPUTVALUE"@[0]); }
    assert("INPUTFLOAT2"@ != "INPUTBOOL"@) by { assert("INPUTFLOAT2"@.len() != "INPUTBOOL"@.len()); }
    assert("INPUTFLOAT2"@ != "INPUTLONG"@) by { assert("INPUTFLOAT2"@.len() != "INPUTLONG"@.len()); }
    assert("INPUTFLOAT2"@ != "INPUTULONG"@) by { assert("INPUTFLOAT2"@.len() != "INPUTULONG"@.len()); }
    assert("INPUTFLOAT2"@ != "INPUTVARIANT"@) by { assert("INPUTFLOAT2"@.len() != "INPUTVARIANT"@.len()); }
    assert("INPUTFLOAT2"@ != "INPUTFLOAT"@) by { assert("INPUTFLOAT2"@.len() != "INPUTFLOAT"@.len()); }
}

proof fn lemma_inputfloat2_fields(d: Seq<u8>, p: int)
    ensures
        layout_size(seq![Field::Guid, Field::Single, Field::Single]) == 24,
        layout_scalars(d, p, seq![Field::Guid, Field::Single, Field::Single]) == seq![
            ScalarView::Text(guid_braced_upper(d.subrange(p, p + 16))),
            ScalarView::Single(u32_at(d, p + 16) as u32),
            ScalarView::Single(u32_at(d, p + 20) as u32),
        ],
{
    let fs = seq![Field::Guid, Field::Single, Field::Single];
    reveal_with_fuel(layout_scalars, 4);
    reveal_with_fuel(layout_size, 4);
    assert(layout_scalars(d, p, fs) =~= seq![
        ScalarView::Text(guid_braced_upper(d.subrange(p, p + 16))),
        ScalarView::Single(u32_at(d, p + 16) as u32),
        ScalarView::Single(u32_at(d, p + 20) as u32),
    ]);
}

proof fn lemma_value_inputfloat2(d: Seq<u8>, t: TextTable, p: int, def: DefView, size: int)
    ensures
        upper_seq(def.value_type) == "INPUTFLOAT2"@ ==> property_value(d, t, p, def, size) == value_of_size(
            d,
            p,
            24,
            seq![
                ScalarView::Text(guid_braced_upper(d.subrange(p, p + 16))),
                ScalarView::Single(u32_at(d, p + 16) as u32),
                ScalarView::Single(u32_at(d, p + 20) as u32),
            ],
        ),
{
    if upper_seq(def.value_type) == "INPUTFLOAT2"@ {
        lemma_inputfloat2_is_fixed_size();
        lemma_inputfloat2_layout();
        lemma_inputfloat2_fields(d, p);
        lemma_fixed_size_value(d, t, p, def, size);
    }
}

proof fn lemma_inputfloat3_is_fixed_size()
    ensures
        "INPUTFLOAT3"@ != "TEXT"@,
        "INPUTFLOAT3"@ != "MLTEXT"@,
        "INPUTFLOAT3"@ != "BEZIERCURVE"@,
        "INPUTFLOAT3"@ != "FLOAT"@,
        "INPUTFLOAT3"@ != "FLOAT2"@,
        "INPUTFLOAT3"@ != "FLOAT3"@,
        "INPUTFLOAT3"@ != "FLOAT4"@,
        "INPUTFLOAT3"@ != "ENUM"@,
        "INPUTFLOAT3"@ != "FILETIME"@,
{
    reveal_strlit("TEXT");
    reveal_strlit("MLTEXT");
    reveal_strlit("BEZIERCURVE");
    reveal_strlit("FLOAT");
    reveal_strlit("FLOAT2");
    reveal_strlit("FLOAT3");
    reveal_strlit("FLOAT4");
    reveal_strlit("ENUM");
    reveal_strlit("FILETIME");
    reveal_strlit("INPUTFLOAT3");
    assert("INPUTFLOAT3"@ != "TEXT"@) by { assert("INPUTFLOAT3"@.len() != "TEXT"@.len()); }
    assert("INPUTFLOAT3"@ != "MLTEXT"@) by { assert("INPUTFLOAT3"@.len() != "MLTEXT"@.len()); }
    assert("INPUTFLOAT3"@ != "BEZIERCURVE"@) by { assert("INPUTFLOAT3"@[0] != "BEZIERCURVE"@[0]); }
    assert("INPUTFLOAT3"@ != "FLOAT"@) by { assert("INPUTFLOAT3"@.len() != "FLOAT"@.len()); }
    assert("INPUTFLOAT3"@ != "FLOAT2"@) by { assert("INPUTFLOAT3"@.len() != "FLOAT2"@.len()); }
    assert("INPUTFLOAT3"@ != "FLOAT3"@) by { assert("INPUTFLOAT3"@.len() != "FLOAT3"@.len()); }
    assert("INPUTFLOAT3"@ != "FLOAT4"@) by { assert("INPUTFLOAT3"@.len() != "FLOAT4"@.len()); }
    assert("INPUTFLOAT3"@ != "ENUM"@) by { assert("INPUTFLOAT3"@.len() != "ENUM"@.len()); }
    assert("INPUTFLOAT3"@ != "FILETIME"@) by { assert("INPUTFLOAT3"@.len() != "FILETIME"@.len()); }
}

proof fn lemma_inputfloat3_layout()
    ensures
        layout_of("INPUTFLOAT3"@) == Some(seq![Field::Guid, Field::Single, Field::Single, Field::Single]),
{
    reveal_strlit("ULONG");
    reveal_strlit("LONG");
    reveal_strlit("LONG2");
    reveal_strlit("LONG4");
    reveal_strlit("BOOL");
    reveal_strlit("DOUBLE");
    reveal_strlit("BYTE4");
    reveal_strlit("GUID");
    reveal_strlit("OUTPUTVALUE");
    reveal_strlit("INPUTBOOL");
    reveal_strlit("INPUTLONG");
    reveal_strlit("INPUTULONG");
    reveal_strlit("INPUTVARIANT");
    reveal_strlit("INPUTFLOAT");
    reveal_strlit("INPUTFLOAT2");
    reveal_strlit("INPUTFLOAT3");
    assert("INPUTFLOAT3"@ != "ULONG"@) by { assert("INPUTFLOAT3"@.len() != "ULONG"@.len()); }
    assert("INPUTFLOAT3"@ != "LONG"@) by { assert("INPUTFLOAT3"@.len() != "LONG"@.len()); }
    assert("INPUTFLOAT3"@ != "LONG2"@) by { assert("INPUTFLOAT3"@.len() != "LONG2"@.len()); }
    assert("INPUTFLOAT3"@ != "LONG4"@) by { assert("INPUTFLOAT3"@.len() != "LONG4"@.len()); }
    assert("INPUTFLOAT3"@ != "BOOL"@) by { assert("INPUTFLOAT3"@.len() != "BOOL"@.len()); }
    assert("INPUTFLOAT3"@ != "DOUBLE"@) by { assert("INPUTFLOAT3"@.len() != "DOUBLE"@.len()); }
    assert("INPUTFLOAT3"@ != "BYTE4"@) by { assert("INPUTFLOAT3"@.len() != "BYTE4"@.len()); }
    assert("INPUTFLOAT3"@ != "GUID"@) by { assert("INPUTFLOAT3"@.len() != "GUID"@.len()); }
    assert("INPUTFLOAT3"@ != "OUTPUTVALUE"@) by { assert("INPUTFLOAT3"@[0] != "OUTPUTVALUE"@[0]); }
    assert("INPUTFLOAT3"@ != "INPUTBOOL"@) by { assert("INPUTFLOAT3"@.len() != "INPUTBOOL"@.len()); }
    assert("INPUTFLOAT3"@ != "INPUTLONG"@) by { assert("INPUTFLOAT3"@.len() != "INPUTLONG"@.len()); }
    assert("INPUTFLOAT3"@ != "INPUTULONG"@) by { assert("INPUTFLOAT3"@.len() != "INPUTULONG"@.len()); }
    assert("INPUTFLOAT3"@ != "INPUTVARIANT"@) by { assert("INPUTFLOAT3"@.len() != "INPUTVARIANT"@.len()); }
    assert("INPUTFLOAT3"@ != "INPUTFLOAT"@) by { assert("INPUTFLOAT3"@.len() != "INPUTFLOAT"@.len()); }
    assert("INPUTFLOAT3"@ != "INPUTFLOAT2"@) by { assert("INPUTFLOAT3"@[10] != "INPUTFLOAT2"@[10]); }
}

proof fn lemma_inputfloat3_fields(d: Seq<u8>, p: int)
    ensures
        layout_size(seq![Field::Guid, Field::Single, Field::Single, Field::Single]) == 28,
        layout_scalars(d, p, seq![Field::Guid, Field::Single, Field::Single, Field::Single]) == seq![
            ScalarView::Text(guid_braced_upper(d.subrange(p, p + 16))),
            ScalarView::Single(u32_at(d, p + 16) as u32),
            ScalarView::Single(u32_at(d, p + 20) as u32),
            ScalarView::Single(u32_at(d, p + 24) as u32),
        ],
{
    let fs = seq![Field::Guid, Field::Single, Field::Single, Field::Single];
    reveal_with_fuel(layout_scalars, 5);
    reveal_with_fuel(layout_size, 5);
    assert(layout_scalars(d, p, fs) =~= seq![
        ScalarView::Text(guid_braced_upper(d.subrange(p, p + 16))),
        ScalarView::Single(u32_at(d, p + 16) as u32),
        ScalarView::Single(u32_at(d, p + 20) as u32),
        ScalarView::Single(u32_at(d, p + 24) as u32),
    ]);
}

proof fn lemma_value_inputfloat3(d: Seq<u8>, t: TextTable, p: int, def: DefView, size: int)
    ensures
        upper_seq(def.value_type) == "INPUTFLOAT3"@ ==> property_value(d, t, p, def, size) == value_of_size(
            d,
            p,
            28,
            seq![
                ScalarView::Text(guid_braced_upper(d.subrange(p, p + 16))),
                ScalarView::Single(u32_at(d, p + 16) as u32),
                ScalarView::Single(u32_at(d, p + 20) as u32),
                ScalarView::Single(u32_at(d, p + 24) as u32),
            ],
        ),
{
    if upper_seq(def.value_type) == "INPUTFLOAT3"@ {
        lemma_inputfloat3_is_fixed_size();
        lemma_inputfloat3_layout();
        lemma_inputfloat3_fields(d, p);
        lemma_fixed_size_value(d, t, p, def, size);
    }
}

proof fn lemma_inputcolor_is_fixed_size()
    ensures
        "INPUTCOLOR"@ != "TEXT"@,
        "INPUTCOLOR"@ != "MLTEXT"@,
        "INPUTCOLOR"@ != "BEZIERCURVE"@,
        "INPUTCOLOR"@ != "FLOAT"@,
        "INPUTCOLOR"@ != "FLOAT2"@,
        "INPUTCOLOR"@ != "FLOAT3"@,
        "INPUTCOLOR"@ != "FLOAT4"@,
        "INPUTCOLOR"@ != "ENUM"@,
        "INPUTCOLOR"@ != "FILETIME"@,
{
    reveal_strlit("TEXT");
    reveal_strlit("MLTEXT");
    reveal_strlit("BEZIERCURVE");
    reveal_strlit("FLOAT");
    reveal_strlit("FLOAT2");
    reveal_strlit("FLOAT3");
    reveal_strlit("FLOAT4");
    reveal_strlit("ENUM");
    reveal_strlit("FILETIME");
    reveal_strlit("INPUTCOLOR");
    assert("INPUTCOLOR"@ != "TEXT"@) by { assert("INPUTCOLOR"@.len() != "TEXT"@.len()); }
    assert("INPUTCOLOR"@ != "MLTEXT"@) by { assert("INPUTCOLOR"@.len() != "MLTEXT"@.len()); }
    assert("INPUTCOLOR"@ != "BEZIERCURVE"@) by { assert("INPUTCOLOR"@.len() != "BEZIERCURVE"@.len()); }
    assert("INPUTCOLOR"@ != "FLOAT"@) by { assert("INPUTCOLOR"@.len() != "FLOAT"@.len()); }
    assert("INPUTCOLOR"@ != "FLOAT2"@) by { assert("INPUTCOLOR"@.len() != "FLOAT2"@.len()); }
    assert("INPUTCOLOR"@ != "FLOAT3"@) by { assert("INPUTCOLOR"@.len() != "FLOAT3"@.len()); }
    assert("INPUTCOLOR"@ != "FLOAT4"@) by { assert("INPUTCOLOR"@.len() != "FLOAT4"@.len()); }
    assert("INPUTCOLOR"@ != "ENUM"@) by { assert("INPUTCOLOR"@.len() != "ENUM"@.len()); }
    assert("INPUTCOLOR"@ != "FILETIME"@) by { assert("INPUTCOLOR"@.len() != "FILETIME"@.len()); }
}

proof fn lemma_inputcolor_layout()
    ensures
        layout_of("INPUTCOLOR"@) == Some(seq![Field::Guid, Field::U8Dec, Field::U8Dec, Field::U8Dec, Field::U8Dec]),
{
    reveal_strlit("ULONG");
    reveal_strlit("LONG");
    reveal_strlit("LONG2");
    reveal_strlit("LONG4");
    reveal_strlit("BOOL");
    reveal_strlit("DOUBLE");
    reveal_strlit("BYTE4");
    reveal_strlit("GUID");
    reveal_strlit("OUTPUTVALUE");
    reveal_strlit("INPUTBOOL");
    reveal_strlit("INPUTLONG");
    reveal_strlit("INPUTULONG");
    reveal_strlit("INPUTVARIANT");
    reveal_strlit("INPUTFLOAT");
    reveal_strlit("INPUTFLOAT2");
    reveal_strlit("INPUTFLOAT3");
    reveal_strlit("INPUTCOLOR");
    assert("INPUTCOLOR"@ != "ULONG"@) by { assert("INPUTCOLOR"@.len() != "ULONG"@.len()); }
    assert("INPUTCOLOR"@ != "LONG"@) by { assert("INPUTCOLOR"@.len() != "LONG"@.len()); }
    assert("INPUTCOLOR"@ != "LONG2"@) by { assert("INPUTCOLOR"@.len() != "LONG2"@.len()); }
    assert("INPUTCOLOR"@ != "LONG4"@) by { assert("INPUTCOLOR"@.len() != "LONG4"@.len()); }
    assert("INPUTCOLOR"@ != "BOOL"@) by { assert("INPUTCOLOR"@.len() != "BOOL"@.len()); }
    assert("INPUTCOLOR"@ != "DOUBLE"@) by { assert("INPUTCOLOR"@.len() != "DOUBLE"@.len()); }
    assert("INPUTCOLOR"@ != "BYTE4"@) by { assert("INPUTCOLOR"@.len() != "BYTE4"@.len()); }
    assert("INPUTCOLOR"@ != "GUID"@) by { assert("INPUTCOLOR"@.len() != "GUID"@.len()); }
    assert("INPUTCOLOR"@ != "OUTPUTVALUE"@) by { assert("INPUTCOLOR"@.len() != "OUTPUTVALUE"@.len()); }
    assert("INPUTCOLOR"@ != "INPUTBOOL"@) by { assert("INPUTCOLOR"@.len() != "INPUTBOOL"@.len()); }
    assert("INPUTCOLOR"@ != "INPUTLONG"@) by { assert("INPUTCOLOR"@.len() != "INPUTLONG"@.len()); }
    assert("INPUTCOLOR"@ != "INPUTULONG"@) by { assert("INPUTCOLOR"@[5] != "INPUTULONG"@[5]); }
    assert("INPUTCOLOR"@ != "INPUTVARIANT"@) by { assert("INPUTCOLOR"@.len() != "INPUTVARIANT"@.len()); }
    assert("INPUTCOLOR"@ != "INPUTFLOAT"@) by { assert("INPUTCOLOR"@[5] != "INPUTFLOAT"@[5]); }
    assert("INPUTCOLOR"@ != "INPUTFLOAT2"@) by { assert("INPUTCOLOR"@.len() != "INPUTFLOAT2"@.len()); }
    assert("INPUTCOLOR"@ != "INPUTFLOAT3"@) by { assert("INPUTCOLOR"@.len() != "INPUTFLOAT3"@.len()); }
}

proof fn lemma_inputcolor_fields(d: Seq<u8>, p: int)
    ensures
        layout_size(seq![Field::Guid, Field::U8Dec, Field::U8Dec, Field::U8Dec, Field::U8Dec]) == 20,
        layout_scalars(d, p, seq![Field::Guid, Field::U8Dec, Field::U8Dec, Field::U8Dec, Field::U8Dec]) == seq![
            ScalarView::Text(guid_braced_upper(d.subrange(p, p + 16))),
            ScalarView::Text(decimal(d[p + 16] as int)),
            ScalarView::Text(decimal(d[p + 17] as int)),
            ScalarView::Text(decimal(d[p + 18] as int)),
            ScalarView::Text(decimal(d[p + 19] as int)),
        ],
{
    let fs = seq![Field::Guid, Field::U8Dec, Field::U8Dec, Field::U8Dec, Field::U8Dec];
    reveal_with_fuel(layout_scalars, 6);
    reveal_with_fuel(layout_size, 6);
    assert(layout_scalars(d, p, fs) =~= seq![
        ScalarView::Text(guid_braced_upper(d.subrange(p, p + 16))),
        ScalarView::Text(decimal(d[p + 16] as int)),
        ScalarView::Text(decimal(d[p + 17] as int)),
        ScalarView::Text(decimal(d[p + 18] as int)),
        ScalarView::Text(decimal(d[p + 19] as int)),
    ]);
}

proof fn lemma_value_inputcolor(d: Seq<u8>, t: TextTable, p: int, def: DefView, size: int)
    ensures
        upper_seq(def.value_type) == "INPUTCOLOR"@ ==> property_value(d, t, p, def, size) == value_of_size(
            d,
            p,
            20,
            seq![
                ScalarView::Text(guid_braced_upper(d.subrange(p, p + 16))),
                ScalarView::Text(decimal(d[p + 16] as int)),
                ScalarView::Text(decimal(d[p + 17] as int)),
                ScalarView::Text(decimal(d[p + 18] as int)),
                ScalarView::Text(decimal(d[p + 19] as int)),
            ],
        ),
{
    if upper_seq(def.value_type) == "INPUTCOLOR"@ {
        lemma_inputcolor_is_fixed_size();
        lemma_inputcolor_layout();
        lemma_inputcolor_fields(d, p);
        lemma_fixed_size_value(d, t, p, def, size);
    }
}

/// GUID and input pin values, whatever the case of their type name: `GUID`
/// and `OUTPUTVALUE` are a 16 byte GUID written braced and upper case; each
/// `INPUT` type is such a GUID followed by its own value (`BOOL` flag, `LONG`
/// or `ULONG` in decimal, one, two or three floats for `VARIANT`, `FLOAT`,
/// `FLOAT2` and `FLOAT3`, four decimal bytes for `COLOR`), all consumed.
pub proof fn guid_and_input_values(d: Seq<u8>, t: TextTable, p: int, def: DefView, size: int)
    ensures
        upper_seq(def.value_type) == "GUID"@ ==> property_value(d, t, p, def, size) == value_of_size(
            d,
            p,
            16,
            seq![
                ScalarView::Text(guid_braced_upper(d.subrange(p, p + 16))),
            ],
        ),
        upper_seq(def.value_type) == "OUTPUTVALUE"@ ==> property_value(d, t, p, def, size) == value_of_size(
            d,
            p,
            16,
            seq![
                ScalarView::Text(guid_braced_upper(d.subrange(p, p + 16))),
            ],
        ),
        upper_seq(def.value_type) == "INPUTBOOL"@ ==> property_value(d, t, p, def, size) == value_of_size(
            d,
            p,
            20,
            seq![
                ScalarView::Text(guid_braced_upper(d.subrange(p, p + 16))),
                ScalarView::Text(if i32_at(d, p + 16) == 1 { "true"@ } else { "false"@ }),
            ],
        ),
        upper_seq(def.value_type) == "INPUTLONG"@ ==> property_value(d, t, p, def, size) == value_of_size(
            d,
            p,
            20,
            seq![
                ScalarView::Text(guid_braced_upper(d.subrange(p, p + 16))),
                ScalarView::Text(decimal(i32_at(d, p + 16))),
            ],
        ),
        upper_seq(def.value_type) == "INPUTULONG"@ ==> property_value(d, t, p, def, size) == value_of_size(
            d,
            p,
            20,
            seq![
                ScalarView::Text(guid_braced_upper(d.subrange(p, p + 16))),
                ScalarView::Text(decimal(u32_at(d, p + 16))),
            ],
        ),
        upper_seq(def.value_type) == "INPUTVARIANT"@ ==> property_value(d, t, p, def, size) == value_of_size(
            d,
            p,
            20,
            seq![
                ScalarView::Text(guid_braced_upper(d.subrange(p, p + 16))),
                ScalarView::Single(u32_at(d, p + 16) as u32),
            ],
        ),
        upper_seq(def.value_type) == "INPUTFLOAT"@ ==> property_value(d, t, p, def, size) == value_of_size(
            d,
            p,
            20,
            seq![
                ScalarView::Text(guid_braced_upper(d.subrange(p, p + 16))),
                ScalarView::Single(u32_at(d, p + 16) as u32),
            ],
        ),
        upper_seq(def.value_type) == "INPUTFLOAT2"@ ==> property_value(d, t, p, def, size) == value_of_size(
            d,
            p,
            24,
            seq![
                ScalarView::Text(guid_braced_upper(d.subrange(p, p + 16))),
                ScalarView::Single(u32_at(d, p + 16) as u32),
                ScalarView::Single(u32_at(d, p + 20) as u32),
            ],
        ),
        upper_seq(def.value_type) == "INPUTFLOAT3"@ ==> property_value(d, t, p, def, size) == value_of_size(
            d,
            p,
            28,
            seq![
                ScalarView::Text(guid_braced_upper(d.subrange(p, p + 16))),
                ScalarView::Single(u32_at(d, p + 16) as u32),
                ScalarView::Single(u32_at(d, p + 20) as u32),
                ScalarView::Single(u32_at(d, p + 24) as u32),
            ],
        ),
        upper_seq(def.value_type) == "INPUTCOLOR"@ ==> property_value(d, t, p, def, size) == value_of_size(
            d,
            p,
            20,
            seq![
                ScalarView::Text(guid_braced_upper(d.subrange(p, p + 16))),
                ScalarView::Text(decimal(d[p + 16] as int)),
                ScalarView::Text(decimal(d[p + 17] as int)),
                ScalarView::Text(decimal(d[p + 18] as int)),
                ScalarView::Text(decimal(d[p + 19] as int)),
            ],
        ),
{
    lemma_value_guid(d, t, p, def, size);
    lemma_value_outputvalue(d, t, p, def, size);
    lemma_value_inputbool(d, t, p, def, size);
    lemma_value_inputlong(d, t, p, def, size);
    lemma_value_inputulong(d, t, p, def, size);
    lemma_value_inputvariant(d, t, p, def, size);
    lemma_value_inputfloat(d, t, p, def, size);
    lemma_value_inputfloat2(d, t, p, def, size);
    lemma_value_inputfloat3(d, t, p, def, size);
    lemma_value_inputcolor(d, t, p, def, size);
}

proof fn lemma_pbh_is_fixed_size()
    ensures
        "PBH"@ != "TEXT"@,
        "PBH"@ != "MLTEXT"@,
        "PBH"@ != "BEZIERCURVE"@,
        "PBH"@ != "FLOAT"@,
        "PBH"@ != "FLOAT2"@,
        "PBH"@ != "FLOAT3"@,
        "PBH"@ != "FLOAT4"@,
        "PBH"@ != "ENUM"@,
        "PBH"@ != "FILETIME"@,
{
    reveal_strlit("TEXT");
    reveal_strlit("MLTEXT");
    reveal_strlit("BEZIERCURVE");
    reveal_strlit("FLOAT");
    reveal_strlit("FLOAT2");
    reveal_strlit("FLOAT3");
    reveal_strlit("FLOAT4");
    reveal_strlit("ENUM");
    reveal_strlit("FILETIME");
    reveal_strlit("PBH");
    assert("PBH"@ != "TEXT"@) by { assert("PBH"@.len() != "TEXT"@.len()); }
    assert("PBH"@ != "MLTEXT"@) by { assert("PBH"@.len() != "MLTEXT"@.len()); }
    assert("PBH"@ != "BEZIERCURVE"@) by { assert("PBH"@.len() != "BEZIERCURVE"@.len()); }
    assert("PBH"@ != "FLOAT"@) by { assert("PBH"@.len() != "FLOAT"@.len()); }
    assert("PBH"@ != "FLOAT2"@) by { assert("PBH"@.len() != "FLOAT2"@.len()); }
    assert("PBH"@ != "FLOAT3"@) by { assert("PBH"@.len() != "FLOAT3"@.len()); }
    assert("PBH"@ != "FLOAT4"@) by { assert("PBH"@.len() != "FLOAT4"@.len()); }
    assert("PBH"@ != "ENUM"@) by { assert("PBH"@.len() != "ENUM"@.len()); }
    assert("PBH"@ != "FILETIME"@) by { assert("PBH"@.len() != "FILETIME"@.len()); }
}

proof fn lemma_pbh_layout()
    ensures
        layout_of("PBH"@) == Some(seq![Field::Angle, Field::Angle, Field::Angle, Field::Skip4]),
{
    reveal_strlit("ULONG");
    reveal_strlit("LONG");
    reveal_strlit("LONG2");
    reveal_strlit("LONG4");
    reveal_strlit("BOOL");
    reveal_strlit("DOUBLE");
    reveal_strlit("BYTE4");
    reveal_strlit("GUID");
    reveal_strlit("OUTPUTVALUE");
    reveal_strlit("INPUTBOOL");
    reveal_strlit("INPUTLONG");
    reveal_strlit("INPUTULONG");
    reveal_strlit("INPUTVARIANT");
    reveal_strlit("INPUTFLOAT");
    reveal_strlit("INPUTFLOAT2");
    reveal_strlit("INPUTFLOAT3");
    reveal_strlit("INPUTCOLOR");
    reveal_strlit("PBH");
    assert("PBH"@ != "ULONG"@) by { assert("PBH"@.len() != "ULONG"@.len()); }
    assert("PBH"@ != "LONG"@) by { assert("PBH"@.len() != "LONG"@.len()); }
    assert("PBH"@ != "LONG2"@) by { assert("PBH"@.len() != "LONG2"@.len()); }
    assert("PBH"@ != "LONG4"@) by { assert("PBH"@.len() != "LONG4"@.len()); }
    assert("PBH"@ != "BOOL"@) by { assert("PBH"@.len() != "BOOL"@.len()); }
    assert("PBH"@ != "DOUBLE"@) by { assert("PBH"@.len() != "DOUBLE"@.len()); }
    assert("PBH"@ != "BYTE4"@) by { assert("PBH"@.len() != "BYTE4"@.len()); }
    assert("PBH"@ != "GUID"@) by { assert("PBH"@.len() != "GUID"@.len()); }
    assert("PBH"@ != "OUTPUTVALUE"@) by { assert("PBH"@.len() != "OUTPUTVALUE"@.len()); }
    assert("PBH"@ != "INPUTBOOL"@) by { assert("PBH"@.len() != "INPUTBOOL"@.len()); }
    assert("PBH"@ != "INPUTLONG"@) by { assert("PBH"@.len() != "INPUTLONG"@.len()); }
    assert("PBH"@ != "INPUTULONG"@) by { assert("PBH"@.len() != "INPUTULONG"@.len()); }
    assert("PBH"@ != "INPUTVARIANT"@) by { assert("PBH"@.len() != "INPUTVARIANT"@.len()); }
    assert("PBH"@ != "INPUTFLOAT"@) by { assert("PBH"@.len() != "INPUTFLOAT"@.len()); }
    assert("PBH"@ != "INPUTFLOAT2"@) by { assert("PBH"@.len() != "INPUTFLOAT2"@.len()); }
    assert("PBH"@ != "INPUTFLOAT3"@) by { assert("PBH"@.len() != "INPUTFLOAT3"@.len()); }
    assert("PBH"@ != "INPUTCOLOR"@) by { assert("PBH"@.len() != "INPUTCOLOR"@.len()); }
}

proof fn lemma_pbh_fields(d: Seq<u8>, p: int)
    ensures
        layout_size(seq![Field::Angle, Field::Angle, Field::Angle, Field::Skip4]) == 16,
        layout_scalars(d, p, seq![Field::Angle, Field::Angle, Field::Angle, Field::Skip4]) == seq![
            ScalarView::Angle(u32_at(d, p) as u32),
            ScalarView::Angle(u32_at(d, p + 4) as u32),
            ScalarView::Angle(u32_at(d, p + 8) as u32),
        ],
{
    let fs = seq![Field::Angle, Field::Angle, Field::Angle, Field::Skip4];
    reveal_with_fuel(layout_scalars, 5);
    reveal_with_fuel(layout_size, 5);
    assert(layout_scalars(d, p, fs) =~= seq![
        ScalarView::Angle(u32_at(d, p) as u32),
        ScalarView::Angle(u32_at(d, p + 4) as u32),
        ScalarView::Angle(u32_at(d, p + 8) as u32),
    ]);
}

proof fn lemma_value_pbh(d: Seq<u8>, t: TextTable, p: int, def: DefView, size: int)
    ensures
        upper_seq(def.value_type) == "PBH"@ ==> property_value(d, t, p, def, size) == value_of_size(
            d,
            p,
            16,
            seq![
                ScalarView::Angle(u32_at(d, p) as u32),
                ScalarView::Angle(u32_at(d, p + 4) as u32),
                ScalarView::Angle(u32_at(d, p + 8) as u32),
            ],
        ),
{
    if upper_seq(def.value_type) == "PBH"@ {
        lemma_pbh_is_fixed_size();
        lemma_pbh_layout();
        lemma_pbh_fields(d, p);
        lemma_fixed_size_value(d, t, p, def, size);
    }
}

proof fn lemma_pbh32_is_fixed_size()
    ensures
        "PBH32"@ != "TEXT"@,
        "PBH32"@ != "MLTEXT"@,
        "PBH32"@ != "BEZIERCURVE"@,
        "PBH32"@ != "FLOAT"@,
        "PBH32"@ != "FLOAT2"@,
        "PBH32"@ != "FLOAT3"@,
        "PBH32"@ != "FLOAT4"@,
        "PBH32"@ != "ENUM"@,
        "PBH32"@ != "FILETIME"@,
{
    reveal_strlit("TEXT");
    reveal_strlit("MLTEXT");
    reveal_strlit("BEZIERCURVE");
    reveal_strlit("FLOAT");
    reveal_strlit("FLOAT2");
    reveal_strlit("FLOAT3");
    reveal_strlit("FLOAT4");
    reveal_strlit("ENUM");
    reveal_strlit("FILETIME");
    reveal_strlit("PBH32");
    assert("PBH32"@ != "TEXT"@) by { assert("PBH32"@.len() != "TEXT"@.len()); }
    assert("PBH32"@ != "MLTEXT"@) by { assert("PBH32"@.len() != "MLTEXT"@.len()); }
    assert("PBH32"@ != "BEZIERCURVE"@) by { assert("PBH32"@.len() != "BEZIERCURVE"@.len()); }
    assert("PBH32"@ != "FLOAT"@) by { assert("PBH32"@[0] != "FLOAT"@[0]); }
    assert("PBH32"@ != "FLOAT2"@) by { assert("PBH32"@.len() != "FLOAT2"@.len()); }
    assert("PBH32"@ != "FLOAT3"@) by { assert("PBH32"@.len() != "FLOAT3"@.len()); }
    assert("PBH32"@ != "FLOAT4"@) by { assert("PBH32"@.len() != "FLOAT4"@.len()); }
    assert("PBH32"@ != "ENUM"@) by { assert("PBH32"@.len() != "ENUM"@.len()); }
    assert("PBH32"@ != "FILETIME"@) by { assert("PBH32"@.len() != "FILETIME"@.len()); }
}

proof fn lemma_pbh32_layout()
    ensures
        layout_of("PBH32"@) == Some(seq![Field::Angle, Field::Angle, Field::Angle, Field::Skip4]),
{
    reveal_strlit("ULONG");
    reveal_strlit("LONG");
    reveal_strlit("LONG2");
    reveal_strlit("LONG4");
    reveal_strlit("BOOL");
    reveal_strlit("DOUBLE");
    reveal_strlit("BYTE4");
    reveal_strlit("GUID");
    reveal_strlit("OUTPUTVALUE");
    reveal_strlit("INPUTBOOL");
    reveal_strlit("INPUTLONG");
    reveal_strlit("INPUTULONG");
    reveal_strlit("INPUTVARIANT");
    reveal_strlit("INPUTFLOAT");
    reveal_strlit("INPUTFLOAT2");
    reveal_strlit("INPUTFLOAT3");
    reveal_strlit("INPUTCOLOR");
    reveal_strlit("PBH");
    reveal_strlit("PBH32");
    assert("PBH32"@ != "ULONG"@) by { assert("PBH32"@[0] != "ULONG"@[0]); }
    assert("PBH32"@ != "LONG"@) by { assert("PBH32"@.len() != "LONG"@.len()); }
    assert("PBH32"@ != "LONG2"@) by { assert("PBH32"@[0] != "LONG2"@[0]); }
    assert("PBH32"@ != "LONG4"@) by { assert("PBH32"@[0] != "LONG4"@[0]); }
    assert("PBH32"@ != "BOOL"@) by { assert("PBH32"@.len() != "BOOL"@.len()); }
    assert("PBH32"@ != "DOUBLE"@) by { assert("PBH32"@.len() != "DOUBLE"@.len()); }
    assert("PBH32"@ != "BYTE4"@) by { assert("PBH32"@[0] != "BYTE4"@[0]); }
    assert("PBH32"@ != "GUID"@) by { assert("PBH32"@.len() != "GUID"@.len()); }
    assert("PBH32"@ != "OUTPUTVALUE"@) by { assert("PBH32"@.len() != "OUTPUTVALUE"@.len()); }
    assert("PBH32"@ != "INPUTBOOL"@) by { assert("PBH32"@.len() != "INPUTBOOL"@.len()); }
    assert("PBH32"@ != "INPUTLONG"@) by { assert("PBH32"@.len() != "INPUTLONG"@.len()); }
    assert("PBH32"@ != "INPUTULONG"@) by { assert("PBH32"@.len() != "INPUTULONG"@.len()); }
    assert("PBH32"@ != "INPUTVARIANT"@) by { assert("PBH32"@.len() != "INPUTVARIANT"@.len()); }
    assert("PBH32"@ != "INPUTFLOAT"@) by { assert("PBH32"@.len() != "INPUTFLOAT"@.len()); }
    assert("PBH32"@ != "INPUTFLOAT2"@) by { assert("PBH32"@.len() != "INPUTFLOAT2"@.len()); }
    assert("PBH32"@ != "INPUTFLOAT3"@) by { assert("PBH32"@.len() != "INPUTFLOAT3"@.len()); }
    assert("PBH32"@ != "INPUTCOLOR"@) by { assert("PBH32"@.len() != "INPUTCOLOR"@.len()); }
    assert("PBH32"@ != "PBH"@) by { assert("PBH32"@.len() != "PBH"@.len()); }
}

proof fn lemma_pbh32_fields(d: Seq<u8>, p: int)
    ensures
        layout_size(seq![Field::Angle, Field::Angle, Field::Angle, Field::Skip4]) == 16,
        layout_scalars(d, p, seq![Field::Angle, Field::Angle, Field::Angle, Field::Skip4]) == seq![
            ScalarView::Angle(u32_at(d, p) as u32),
            ScalarView::Angle(u32_at(d, p + 4) as u32),
            ScalarView::Angle(u32_at(d, p + 8) as u32),
        ],
{
    let fs = seq![Field::Angle, Field::Angle, Field::Angle, Field::Skip4];
    reveal_with_fuel(layout_scalars, 5);
    reveal_with_fuel(layout_size, 5);
    assert(layout_scalars(d, p, fs) =~= seq![
        ScalarView::Angle(u32_at(d, p) as u32),
        ScalarView::Angle(u32_at(d, p + 4) as u32),
        ScalarView::Angle(u32_at(d, p + 8) as u32),
    ]);
}

proof fn lemma_value_pbh32(d: Seq<u8>, t: TextTable, p: int, def: DefView, size: int)
    ensures
        upper_seq(def.value_type) == "PBH32"@ ==> property_value(d, t, p, def, size) == value_of_size(
            d,
            p,
            16,
            seq![
                ScalarView::Angle(u32_at(d, p) as u32),
                ScalarView::Angle(u32_at(d, p + 4) as u32),
                ScalarView::Angle(u32_at(d, p + 8) as u32),
            ],
        ),
{
    if upper_seq(def.value_type) == "PBH32"@ {
        lemma_pbh32_is_fixed_size();
        lemma_pbh32_layout();
        lemma_pbh32_fields(d, p);
        lemma_fixed_size_value(d, t, p, def, size);
    }
}

proof fn lemma_lla_is_fixed_size()
    ensures
        "LLA"@ != "TEXT"@,
        "LLA"@ != "MLTEXT"@,
        "LLA"@ != "BEZIERCURVE"@,
        "LLA"@ != "FLOAT"@,
        "LLA"@ != "FLOAT2"@,
        "LLA"@ != "FLOAT3"@,
        "LLA"@ != "FLOAT4"@,
        "LLA"@ != "ENUM"@,
        "LLA"@ != "FILETIME"@,
{
    reveal_strlit("TEXT");
    reveal_strlit("MLTEXT");
    reveal_strlit("BEZIERCURVE");
    reveal_strlit("FLOAT");
    reveal_strlit("FLOAT2");
    reveal_strlit("FLOAT3");
    reveal_strlit("FLOAT4");
    reveal_strlit("ENUM");
    reveal_strlit("FILETIME");
    reveal_strlit("LLA");
    assert("LLA"@ != "TEXT"@) by { assert("LLA"@.len() != "TEXT"@.len()); }
    assert("LLA"@ != "MLTEXT"@) by { assert("LLA"@.len() != "MLTEXT"@.len()); }
    assert("LLA"@ != "BEZIERCURVE"@) by { assert("LLA"@.len() != "BEZIERCURVE"@.len()); }
    assert("LLA"@ != "FLOAT"@) by { assert("LLA"@.len() != "FLOAT"@.len()); }
    assert("LLA"@ != "FLOAT2"@) by { assert("LLA"@.len() != "FLOAT2"@.len()); }
    assert("LLA"@ != "FLOAT3"@) by { assert("LLA"@.len() != "FLOAT3"@.len()); }
    assert("LLA"@ != "FLOAT4"@) by { assert("LLA"@.len() != "FLOAT4"@.len()); }
    assert("LLA"@ != "ENUM"@) by { assert("LLA"@.len() != "ENUM"@.len()); }
    assert("LLA"@ != "FILETIME"@) by { assert("LLA"@.len() != "FILETIME"@.len()); }
}

proof fn lemma_lla_layout()
    ensures
        layout_of("LLA"@) == Some(seq![Field::Position]),
{
    reveal_strlit("ULONG");
    reveal_strlit("LONG");
    reveal_strlit("LONG2");
    reveal_strlit("LONG4");
    reveal_strlit("BOOL");
    reveal_strlit("DOUBLE");
    reveal_strlit("BYTE4");
    reveal_strlit("GUID");
    reveal_strlit("OUTPUTVALUE");
    reveal_strlit("INPUTBOOL");
    reveal_strlit("INPUTLONG");
    reveal_strlit("INPUTULONG");
    reveal_strlit("INPUTVARIANT");
    reveal_strlit("INPUTFLOAT");
    reveal_strlit("INPUTFLOAT2");
    reveal_strlit("INPUTFLOAT3");
    reveal_strlit("INPUTCOLOR");
    reveal_strlit("PBH");
    reveal_strlit("PBH32");
    reveal_strlit("LLA");
    assert("LLA"@ != "ULONG"@) by { assert("LLA"@.len() != "ULONG"@.len()); }
    assert("LLA"@ != "LONG"@) by { assert("LLA"@.len() != "LONG"@.len()); }
    assert("LLA"@ != "LONG2"@) by { assert("LLA"@.len() != "LONG2"@.len()); }
    assert("LLA"@ != "LONG4"@) by { assert("LLA"@.len() != "LONG4"@.len()); }
    assert("LLA"@ != "BOOL"@) by { assert("LLA"@.len() != "BOOL"@.len()); }
    assert("LLA"@ != "DOUBLE"@) by { assert("LLA"@.len() != "DOUBLE"@.len()); }
    assert("LLA"@ != "BYTE4"@) by { assert("LLA"@.len() != "BYTE4"@.len()); }
    assert("LLA"@ != "GUID"@) by { assert("LLA"@.len() != "GUID"@.len()); }
    assert("LLA"@ != "OUTPUTVALUE"@) by { assert("LLA"@.len() != "OUTPUTVALUE"@.len()); }
    assert("LLA"@ != "INPUTBOOL"@) by { assert("LLA"@.len() != "INPUTBOOL"@.len()); }
    assert("LLA"@ != "INPUTLONG"@) by { assert("LLA"@.len() != "INPUTLONG"@.len()); }
    assert("LLA"@ != "INPUTULONG"@) by { assert("LLA"@.len() != "INPUTULONG"@.len()); }
    assert("LLA"@ != "INPUTVARIANT"@) by { assert("LLA"@.len() != "INPUTVARIANT"@.len()); }
    assert("LLA"@ != "INPUTFLOAT"@) by { assert("LLA"@.len() != "INPUTFLOAT"@.len()); }
    assert("LLA"@ != "INPUTFLOAT2"@) by { assert("LLA"@.len() != "INPUTFLOAT2"@.len()); }
    assert("LLA"@ != "INPUTFLOAT3"@) by { assert("LLA"@.len() != "INPUTFLOAT3"@.len()); }
    assert("LLA"@ != "INPUTCOLOR"@) by { assert("LLA"@.len() != "INPUTCOLOR"@.len()); }
    assert("LLA"@ != "PBH"@) by { assert("LLA"@[0] != "PBH"@[0]); }
    assert("LLA"@ != "PBH32"@) by { assert("LLA"@.len() != "PBH32"@.len()); }
}

proof fn lemma_lla_fields(d: Seq<u8>, p: int)
    ensures
        layout_size(seq![Field::Position]) == 24,
        layout_scalars(d, p, seq![Field::Position]) == seq![
            ScalarView::Position(i64_at(d, p) as i64, i64_at(d, p + 8) as i64, u32_at(d, p + 16) as u32, i32_at(d, p + 20) as i32),
        ],
{
    let fs = seq![Field::Position];
    reveal_with_fuel(layout_scalars, 2);
    reveal_with_fuel(layout_size, 2);
    assert(layout_scalars(d, p, fs) =~= seq![
        ScalarView::Position(i64_at(d, p) as i64, i64_at(d, p + 8) as i64, u32_at(d, p + 16) as u32, i32_at(d, p + 20) as i32),
    ]);
}

proof fn lemma_value_lla(d: Seq<u8>, t: TextTable, p: int, def: DefView, size: int)
    ensures
        upper_seq(def.value_type) == "LLA"@ ==> property_value(d, t, p, def, size) == value_of_size(
            d,
            p,
            24,
            seq![
                ScalarView::Position(i64_at(d, p) as i64, i64_at(d, p + 8) as i64, u32_at(d, p + 16) as u32, i32_at(d, p + 20) as i32),
            ],
        ),
{
    if upper_seq(def.value_type) == "LLA"@ {
        lemma_lla_is_fixed_size();
        lemma_lla_layout();
        lemma_lla_fields(d, p);
        lemma_fixed_size_value(d, t, p, def, size);
    }
}

/// Orientation and position values, whatever the case of their type name:
/// `PBH` and `PBH32` are three 32 bit angles (pitch, bank, heading) followed
/// by four bytes that are read and not written; `LLA` is one packed position
/// of two 64 bit fixed point angles, then the altitude's fraction and whole
/// part.
pub proof fn angle_and_position_values(d: Seq<u8>, t: TextTable, p: int, def: DefView, size: int)
    ensures
        upper_seq(def.value_type) == "PBH"@ ==> property_value(d, t, p, def, size) == value_of_size(
            d,
            p,
            16,
            seq![
                ScalarView::Angle(u32_at(d, p) as u32),
                ScalarView::Angle(u32_at(d, p + 4) as u32),
                ScalarView::Angle(u32_at(d, p + 8) as u32),
            ],
        ),
        upper_seq(def.value_type) == "PBH32"@ ==> property_value(d, t, p, def, size) == value_of_size(
            d,
            p,
            16,
            seq![
                ScalarView::Angle(u32_at(d, p) as u32),
                ScalarView::Angle(u32_at(d, p + 4) as u32),
                ScalarView::Angle(u32_at(d, p + 8) as u32),
            ],
        ),
        upper_seq(def.value_type) == "LLA"@ ==> property_value(d, t, p, def, size) == value_of_size(
            d,
            p,
            24,
            seq![
                ScalarView::Position(i64_at(d, p) as i64, i64_at(d, p + 8) as i64, u32_at(d, p + 16) as u32, i32_at(d, p + 20) as i32),
            ],
        ),
{
    lemma_value_pbh(d, t, p, def, size);
    lemma_value_pbh32(d, t, p, def, size);
    lemma_value_lla(d, t, p, def, size);
}

/// Enumerated and time values, whatever the case of their type name: an
/// `ENUM` value is the `i32` index at its start, written as the name of that
/// enumerator of the definition and consuming four bytes, and an index
/// outside the definition's enumerators is refused naming the index and the
/// property; a `FILETIME` value takes eight bytes and writes nothing.
pub proof fn enum_and_time_values(d: Seq<u8>, t: TextTable, p: int, def: DefView, size: int)
    ensures
        upper_seq(def.value_type) == "ENUM"@ && p + 4 <= d.len() && 0 <= i32_at(d, p) < def.enum_values.len()
            ==> property_value(d, t, p, def, size) == value_of_size(
            d,
            p,
            4,
            seq![ScalarView::Text(def.enum_values[i32_at(d, p)])],
        ),
        upper_seq(def.value_type) == "ENUM"@ && p + 4 <= d.len() && !(0 <= i32_at(d, p)
            < def.enum_values.len()) ==> property_value(d, t, p, def, size) == Err::<
            (int, Option<Seq<ScalarView>>),
            Seq<char>,
        >(enum_message(i32_at(d, p), def.name)),
        upper_seq(def.value_type) == "ENUM"@ && p + 4 > d.len() ==> property_value(d, t, p, def, size)
            == Err::<(int, Option<Seq<ScalarView>>), Seq<char>>(eof_message()),
        upper_seq(def.value_type) == "FILETIME"@ ==> property_value(d, t, p, def, size) == if p + 8
            > d.len() {
            Err::<(int, Option<Seq<ScalarView>>), Seq<char>>(eof_message())
        } else {
            Ok((p + 8, None))
        },
{
    let vt = upper_seq(def.value_type);
    reveal_strlit("TEXT");
    reveal_strlit("MLTEXT");
    reveal_strlit("BEZIERCURVE");
    reveal_strlit("FLOAT");
    reveal_strlit("FLOAT2");
    reveal_strlit("FLOAT3");
    reveal_strlit("FLOAT4");
    reveal_strlit("ENUM");
    reveal_strlit("FILETIME");
    if vt == "ENUM"@ {
        assert("ENUM"@ != "TEXT"@) by { assert("ENUM"@[0] != "TEXT"@[0]); }
        assert("ENUM"@ != "MLTEXT"@) by { assert("ENUM"@.len() != "MLTEXT"@.len()); }
        assert("ENUM"@ != "BEZIERCURVE"@) by { assert("ENUM"@.len() != "BEZIERCURVE"@.len()); }
        assert("ENUM"@ != "FLOAT"@) by { assert("ENUM"@.len() != "FLOAT"@.len()); }
        assert("ENUM"@ != "FLOAT2"@) by { assert("ENUM"@.len() != "FLOAT2"@.len()); }
        assert("ENUM"@ != "FLOAT3"@) by { assert("ENUM"@.len() != "FLOAT3"@.len()); }
        assert("ENUM"@ != "FLOAT4"@) by { assert("ENUM"@.len() != "FLOAT4"@.len()); }
    }
    if vt == "FILETIME"@ {
        assert("FILETIME"@ != "TEXT"@) by { assert("FILETIME"@.len() != "TEXT"@.len()); }
        assert("FILETIME"@ != "MLTEXT"@) by { assert("FILETIME"@.len() != "MLTEXT"@.len()); }
        assert("FILETIME"@ != "BEZIERCURVE"@) by { assert("FILETIME"@.len() != "BEZIERCURVE"@.len()); }
        assert("FILETIME"@ != "FLOAT"@) by { assert("FILETIME"@.len() != "FLOAT"@.len()); }
        assert("FILETIME"@ != "FLOAT2"@) by { assert("FILETIME"@.len() != "FLOAT2"@.len()); }
        assert("FILETIME"@ != "FLOAT3"@) by { assert("FILETIME"@.len() != "FLOAT3"@.len()); }
        assert("FILETIME"@ != "FLOAT4"@) by { assert("FILETIME"@.len() != "FLOAT4"@.len()); }
        assert("FILETIME"@ != "ENUM"@) by { assert("FILETIME"@.len() != "ENUM"@.len()); }
    }
}

/// Length prefixed values, whatever the case of their type name: the value
/// is an `i32` byte count followed by that many bytes. `TEXT` and `MLTEXT`
/// payloads go through the text table, and the table's refusal is the
/// value's error; a `BEZIERCURVE` payload is read as UTF-8 (invalid sequences
/// replaced) with trailing nulls removed. A count of zero is the empty text
/// in four bytes, and a negative count is refused.
pub proof fn length_prefixed_values(d: Seq<u8>, t: TextTable, p: int, def: DefView, size: int)
    requires
        0 <= p,
        p + 4 <= d.len(),
    ensures
        ({
            let vt = upper_seq(def.value_type);
            let len = i32_at(d, p);
            let bytes = d.subrange(p + 4, p + 4 + len);
            &&& (vt == "TEXT"@ || vt == "MLTEXT"@ || vt == "BEZIERCURVE"@) && len < 0 ==> property_value(
                d,
                t,
                p,
                def,
                size,
            ) == Err::<(int, Option<Seq<ScalarView>>), Seq<char>>(negative_length_message(len))
            &&& (vt == "TEXT"@ || vt == "MLTEXT"@ || vt == "BEZIERCURVE"@) && len == 0 ==> property_value(
                d,
                t,
                p,
                def,
                size,
            ) == value_of_size(d, p, 4, seq![ScalarView::Text(Seq::empty())])
            &&& (vt == "TEXT"@ || vt == "MLTEXT"@) && 0 < len && p + 4 + len <= d.len() ==> property_value(
                d,
                t,
                p,
                def,
                size,
            ) == match t.decoded(bytes) {
                Ok(s) => value_of_size(d, p, 4 + len, seq![ScalarView::Text(s)]),
                Err(m) => Err(m),
            }
            &&& vt == "BEZIERCURVE"@ && 0 < len && p + 4 + len <= d.len() ==> property_value(
                d,
                t,
                p,
                def,
                size,
            ) == value_of_size(d, p, 4 + len, seq![ScalarView::Text(trim_nul_seq(lossy_utf8(bytes)))])
        }),
{
    reveal_strlit("TEXT");
    reveal_strlit("MLTEXT");
    reveal_strlit("BEZIERCURVE");
    let vt = upper_seq(def.value_type);
    if vt == "MLTEXT"@ {
        assert("MLTEXT"@ != "TEXT"@) by { assert("MLTEXT"@.len() != "TEXT"@.len()); }
    }
    if vt == "BEZIERCURVE"@ {
        assert("BEZIERCURVE"@ != "TEXT"@) by { assert("BEZIERCURVE"@.len() != "TEXT"@.len()); }
        assert("BEZIERCURVE"@ != "MLTEXT"@) by { assert("BEZIERCURVE"@.len() != "MLTEXT"@.len()); }
    }
}

} // verus!
