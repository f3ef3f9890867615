# stormlight_mod

The modding ABI shared by the engine and its wasm mods, with every rule it
states proved by Verus.

`src/` is the verified library: the descriptor data (abilities, buffs, effect
trees, talents, quests, animation graphs, interface trees), the interner that
gives names their dense handles, the registration context a mod fills, the
id-remap walk that adoption runs over every descriptor, the validators the host
runs at load (manifest, quest ladders, animation descriptors, interface trees,
animation tracks), the authoring helpers built on top of them, and the routing
of a guest's runtime entry points. Numbers are held as binary32 bit patterns
(`scalar`): the library compares them and asks whether they are finite, and
never does arithmetic on them.

`app/` is ordinary Rust around it: the serde copies of the data types and the
postcard bytes a guest hands the host, the wasm memory the bytes live in, the
guest's exported entry points and the author's closures behind them, reading a
`manifest.toml`, and the engine's floating-point evaluation of value and
condition expressions, stat aggregation and animation sampling.

`tests/` exercises the library from outside.
