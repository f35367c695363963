//! The ctypes runtime that every generated Python module carries.
use vstd::prelude::*;

verus! {

/// The runtime, emitted verbatim, so that a generated module depends on the
/// Python standard library alone.
pub const PY_RUNTIME: &'static str = r#"import ctypes
import struct

MAX_OUT_SLOTS = 8


class DynSpireError(RuntimeError):
    pass


class DVecU8(ctypes.Structure):
    _fields_ = [
        ("allocator", ctypes.c_void_p),
        ("ptr", ctypes.c_void_p),
        ("len", ctypes.c_size_t),
        ("cap", ctypes.c_size_t),
    ]


class DynSpireAllocatorReport(ctypes.Structure):
    _fields_ = [
        ("live_bytes", ctypes.c_size_t),
        ("live_allocations", ctypes.c_size_t),
        ("peak_bytes", ctypes.c_size_t),
        ("total_allocations", ctypes.c_size_t),
    ]

    def __repr__(self):
        return (
            "AllocatorReport(live_bytes={}, live_allocations={}, "
            "peak_bytes={}, total_allocations={})"
        ).format(
            self.live_bytes, self.live_allocations,
            self.peak_bytes, self.total_allocations,
        )


class DStr(ctypes.Structure):
    _fields_ = [
        ("ptr", ctypes.c_void_p),
        ("len", ctypes.c_size_t),
    ]


class DSlice(ctypes.Structure):
    _fields_ = [
        ("ptr", ctypes.c_void_p),
        ("len", ctypes.c_size_t),
    ]


class DString(ctypes.Structure):
    _fields_ = [
        ("allocator", ctypes.c_void_p),
        ("ptr", ctypes.c_void_p),
        ("len", ctypes.c_size_t),
        ("cap", ctypes.c_size_t),
    ]


class DVec(ctypes.Structure):
    _fields_ = [
        ("allocator", ctypes.c_void_p),
        ("ptr", ctypes.c_void_p),
        ("len", ctypes.c_size_t),
        ("cap", ctypes.c_size_t),
    ]


class DOption(ctypes.Structure):
    _fields_ = [
        ("tag", ctypes.c_uint8),
        ("_pad", ctypes.c_uint8 * 7),
        ("value", ctypes.c_uint64),
    ]


class OwnedDVec:
    """Owning view of a `DVec<u8>` returned/crated across the FFI boundary.

    Holds the raw pointer; releases it on `__del__`. Provides zero-copy
    access via `as_bytes()` / `memoryview`.
    """

    __slots__ = ("_client", "allocator", "ptr", "len", "cap")

    def __init__(self, client, ptr, length, alloc, cap=None):
        self._client = client
        self.allocator = alloc
        self.ptr = ptr
        self.len = length
        self.cap = cap if cap is not None else length

    def as_bytes(self):
        if not self.ptr:
            return b""
        return ctypes.string_at(self.ptr, int(self.len))

    def __len__(self):
        return int(self.len)

    def __del__(self):
        try:
            if self.ptr:
                self._client._release_fn(self.ptr)
        except Exception:
            pass


class DStringHandle:
    """Owning view of a `DString` returned across the FFI boundary."""

    __slots__ = ("_client", "allocator", "ptr", "len", "cap")

    def __init__(self, client, ptr, length, alloc, cap=None):
        self._client = client
        self.allocator = alloc
        self.ptr = ptr
        self.len = length
        self.cap = cap if cap is not None else length

    def as_str(self):
        if not self.ptr:
            return ""
        return ctypes.string_at(self.ptr, int(self.len)).decode("utf-8", "replace")

    def __len__(self):
        return int(self.len)

    def __del__(self):
        try:
            if self.ptr:
                self._client._release_fn(self.ptr)
        except Exception:
            pass


class SlotWriter:
    def __init__(self):
        self._vals = []
        self._keepalive = []

    def write_u64(self, v):
        self._vals.append(v & 0xFFFFFFFFFFFFFFFF)

    def write_bool(self, b):
        self.write_u64(1 if b else 0)

    def write_u8(self, v):
        self.write_u64(v)

    def write_u16(self, v):
        self.write_u64(v)

    def write_u32(self, v):
        self.write_u64(v)

    def write_i8(self, v):
        self.write_u64(v & 0xFF)

    def write_i16(self, v):
        self.write_u64(v & 0xFFFF)

    def write_i32(self, v):
        self.write_u64(v & 0xFFFFFFFF)

    def write_i64(self, v):
        self.write_u64(v & 0xFFFFFFFFFFFFFFFF)

    def write_f32(self, v):
        self.write_u64(struct.unpack("<I", struct.pack("<f", v))[0])

    def write_f64(self, v):
        self.write_u64(struct.unpack("<Q", struct.pack("<d", v))[0])

    def write_bytes(self, data):
        ptr, n = self._pin_bytes(data)
        self.write_u64(ptr)
        self.write_u64(n)

    def write_str(self, s):
        if isinstance(s, str):
            self.write_bytes(s.encode("utf-8"))
        else:
            self.write_bytes(s)

    def write_opaque(self, handle):
        self.write_u64(handle._ptr)

    def _pin_bytes(self, data):
        if not isinstance(data, (bytes, bytearray)):
            raise TypeError("expected bytes, got " + type(data).__name__)
        n = len(data)
        if n == 0:
            return 0, 0
        arr = (ctypes.c_uint8 * n).from_buffer_copy(bytes(data))
        self._keepalive.append(arr)
        return ctypes.addressof(arr), n

    def array(self):
        if not self._vals:
            return None
        return (ctypes.c_uint64 * len(self._vals))(*self._vals)

    def __len__(self):
        return len(self._vals)


class OutReader:
    def __init__(self, arr, client=None):
        self._arr = arr
        self._pos = 0
        self._client = client
        self._release_list = []

    def read(self):
        v = self._arr[self._pos]
        self._pos += 1
        return v

    def pos(self):
        return self._pos

    def read_bool(self):
        return self.read() != 0

    def read_u8(self):
        return self.read() & 0xFF

    def read_u16(self):
        return self.read() & 0xFFFF

    def read_u32(self):
        return self.read() & 0xFFFFFFFF

    def read_u64(self):
        return self.read()

    def read_i8(self):
        v = self.read() & 0xFF
        return v - 0x100 if v >= 0x80 else v

    def read_i16(self):
        v = self.read() & 0xFFFF
        return v - 0x10000 if v >= 0x8000 else v

    def read_i32(self):
        v = self.read() & 0xFFFFFFFF
        return v - 0x100000000 if v >= 0x80000000 else v

    def read_i64(self):
        v = self.read()
        return v - 0x10000000000000000 if v >= 0x8000000000000000 else v

    def read_f32(self):
        return struct.unpack("<f", struct.pack("<I", self.read() & 0xFFFFFFFF))[0]

    def read_f64(self):
        return struct.unpack("<d", struct.pack("<Q", self.read()))[0]

    def read_string(self):
        ptr, n = self.read(), self.read()
        if not ptr or not n:
            return ""
        if ptr:
            self._release_list.append(ptr)
        return ctypes.string_at(ptr, n).decode("utf-8", "replace")

    def read_bytes(self):
        ptr, n = self.read(), self.read()
        if not ptr or not n:
            return b""
        if ptr:
            self._release_list.append(ptr)
        return ctypes.string_at(ptr, n)

    def read_vec_string(self):
        ptr, n = self.read(), self.read()
        if not ptr or not n:
            return []
        self._release_list.append(ptr)
        out = []
        for i in range(n):
            view = self._client._vec_view_at_fn(ptr, i)
            out.append("" if not view.len else ctypes.string_at(view.ptr, view.len).decode("utf-8", "replace"))
        return out

    def read_vec_bytes(self):
        ptr, n = self.read(), self.read()
        if not ptr or not n:
            return []
        self._release_list.append(ptr)
        out = []
        for i in range(n):
            view = self._client._vec_view_at_fn(ptr, i)
            out.append(b"" if not view.len else ctypes.string_at(view.ptr, view.len))
        return out

    def release_owned(self):
        for p in self._release_list:
            if p:
                self._client._release_fn(p)
        self._release_list = []


def new_out_array():
    return (ctypes.c_uint64 * MAX_OUT_SLOTS)()


class OpaqueHandle:
    __slots__ = ("_client", "_ptr", "__weakref__")

    def __init__(self, client, ptr):
        self._client = client
        self._ptr = ptr

    @property
    def type_name(self):
        return type(self).__name__

    def __repr__(self):
        return type(self).__name__ + "(ptr=0x" + format(self._ptr, "x") + ")"

    def __del__(self):
        try:
            if self._ptr:
                self._client._release_fn(self._ptr)
        except Exception:
            pass


class SpierClient:
    _spier_name = None
    _idl_hash_const = 0

    def __init__(self, lib_path, config=None, debug=False):
        self._lib = ctypes.CDLL(lib_path)
        self._configure_symbols()
        actual = self._idl_hash_fn()
        expected = self._idl_hash_const
        if actual != expected:
            raise DynSpireError(
                "IDL hash mismatch: host expects 0x{:016x}, spier '{}' has 0x{:016x}".format(expected, self._spier_name, actual)
            )
        cfg = _encode_config(config)
        self._alloc_ptr = self._debug_alloc_fn() if debug else self._alloc_fn()
        self._handle = self._create_fn(self._alloc_ptr, cfg, len(cfg))
        if not self._handle:
            raise DynSpireError("spier '{}' create failed".format(self._spier_name))
        self._closed = False
        self._dispatch_cache = {}
        self._outvecs = []

    def _configure_symbols(self):
        f = self._lib.dynspire_default_allocator
        f.restype = ctypes.c_void_p
        f.argtypes = []
        self._alloc_fn = f

        f = self._lib.dynspire_alloc
        f.restype = ctypes.c_void_p
        f.argtypes = [ctypes.c_void_p, ctypes.c_size_t, ctypes.c_size_t]
        self._raw_alloc_fn = f

        f = self._lib.dynspire_debug_allocator
        f.restype = ctypes.c_void_p
        f.argtypes = []
        self._debug_alloc_fn = f

        f = self._lib.dynspire_allocator_report
        f.restype = DynSpireAllocatorReport
        f.argtypes = [ctypes.c_void_p]
        self._report_fn = f

        f = self._lib.dynspire_create
        f.restype = ctypes.c_void_p
        f.argtypes = [ctypes.c_void_p, ctypes.c_char_p, ctypes.c_size_t]
        self._create_fn = f

        f = self._lib.dynspire_destroy
        f.argtypes = [ctypes.c_void_p]
        self._destroy_fn = f

        f = self._lib.dynspire_idl_hash
        f.restype = ctypes.c_uint64
        self._idl_hash_fn = f

        f = self._lib.dynspire_release
        f.argtypes = [ctypes.c_void_p]
        f.restype = None
        self._release_fn = f

    def _dispatch_fn(self, method):
        fn = self._dispatch_cache.get(method)
        if fn is None:
            fn = getattr(self._lib, "dynspire_dispatch_" + method)
            fn.restype = ctypes.c_uint8
            fn.argtypes = [
                ctypes.c_void_p,
                ctypes.c_void_p,
                ctypes.c_size_t,
                ctypes.POINTER(ctypes.c_uint64),
                ctypes.c_size_t,
            ]
            self._dispatch_cache[method] = fn
        return fn

    def _dispatch(self, method, writer, out):
        in_arr = writer.array()
        in_ptr = ctypes.cast(in_arr, ctypes.c_void_p) if in_arr is not None else None
        status = self._dispatch_fn(method)(self._handle, in_ptr, len(writer), out, MAX_OUT_SLOTS)
        if status == 2:
            raise DynSpireError("out-slot overflow dispatching '" + method + "'")
        if status != 0:
            raise DynSpireError("dispatch '" + method + "' failed (status " + str(status) + ")")

    def _new_outvec(self):
        d = DVecU8()
        d.allocator = self._alloc_ptr
        d.ptr = None
        d.len = ctypes.c_size_t(0)
        d.cap = ctypes.c_size_t(0)
        self._outvecs.append(d)
        return ctypes.addressof(d)

    def _read_outvec(self, i):
        d = self._outvecs[i]
        if not d.ptr:
            return b""
        n = int(d.len)
        arr_t = ctypes.c_ubyte * n
        data = bytes(ctypes.cast(d.ptr, ctypes.POINTER(arr_t))[0])
        self._release_fn(d.ptr)
        return data

    def allocator_report(self):
        """Snapshot of the allocator's memory occupation.

        Only meaningful when the client was created with debug=True; otherwise
        returns all zeros.
        """
        return self._report_fn(self._alloc_ptr)

    def _alloc(self, size, align):
        return self._raw_alloc_fn(self._alloc_ptr, size, align)

    def new_dvec(self, cap):
        """Allocate an owning `DVec<u8>` in the host allocator (for passing
        owned buffers into spier methods that take a `DVec` parameter)."""
        ptr = self._alloc(cap, 1) if cap > 0 else None
        return OwnedDVec(self, ptr, 0, self._alloc_ptr, cap)

    def new_dstring(self, s):
        """Allocate an owning `DString` in the host allocator."""
        b = s.encode("utf-8") if isinstance(s, str) else bytes(s)
        n = len(b)
        ptr = self._alloc(n, 1) if n > 0 else None
        if ptr:
            arr = (ctypes.c_uint8 * n).from_buffer_copy(b)
            ctypes.memmove(ptr, ctypes.addressof(arr), n)
        return DStringHandle(self, ptr, n, self._alloc_ptr, n)

    def __enter__(self):
        return self

    def __exit__(self, *exc):
        self.close()
        return False

    def close(self):
        if getattr(self, "_closed", True):
            return
        self._closed = True
        h = getattr(self, "_handle", None)
        if h:
            self._handle = None
            self._destroy_fn(h)

    def __del__(self):
        self.close()


def _encode_config(config):
    if not config:
        return b""
    import urllib.parse
    return urllib.parse.urlencode(config).encode("utf-8")
"#;

} // verus!
