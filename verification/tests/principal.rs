use sistema_ventas::codigos::CodigosProveedores;
use sistema_ventas::numero::Decimal;
use sistema_ventas::principal::{
    buscador, Presentacion, Producto, Sistema, Venta, RUTA_PRODUCTOS, RUTA_PROVEEDORES,
};

fn d(x: u64) -> Decimal {
    Decimal { bits: x }
}

fn producto(codigo: &str, cantidad: &str, presentacion: &str, medida: u64) -> Producto {
    Producto::new(
        CodigosProveedores::new(),
        codigo,
        d(1),
        d(2),
        d(3),
        "Gaseosa",
        "Coca",
        "Light",
        cantidad,
        presentacion,
        d(medida),
    )
}

#[test]
fn saludo_del_buscador() {
    assert_eq!(buscador("Ana"), "Hello, Ana! You've been greeted from Rust!");
    assert_eq!(buscador(""), "Hello, ! You've been greeted from Rust!");
}

#[test]
fn presentacion_por_defecto_son_cero_unidades() {
    assert!(matches!(Presentacion::default(), Presentacion::Un(0)));
}

#[test]
fn producto_por_unidades() {
    let p = producto("7790895000997", "6", "Un", 0);
    assert_eq!(p.codigo_de_barras, 7790895000997);
    assert!(matches!(p.cantidad, Presentacion::Un(6)));
    assert_eq!(p.tipo_producto, "Gaseosa");
    assert_eq!(p.marca, "Coca");
    assert_eq!(p.variedad, "Light");
    assert_eq!(p.precio_de_venta, d(1));
    assert_eq!(p.porcentaje, d(2));
    assert_eq!(p.precio_de_costo, d(3));
}

#[test]
fn producto_por_peso_y_por_volumen() {
    let medida = 1.5f64.to_bits();
    let g = producto("1", "1.5", "Grs", medida);
    assert!(matches!(g.cantidad, Presentacion::Grs(m) if m.bits == medida));
    let l = producto("+2", "1.5", "Lt", medida);
    assert_eq!(l.codigo_de_barras, 2);
    assert!(matches!(l.cantidad, Presentacion::Lt(m) if m.bits == medida));
}

#[test]
fn productos_iguales_por_codigo_de_barras() {
    let a = producto("10", "1", "Un", 0);
    let b = Producto::new(
        CodigosProveedores::new(),
        "10",
        d(9),
        d(9),
        d(9),
        "Otro",
        "Otra",
        "",
        "2",
        "Un",
        d(0),
    );
    let c = producto("11", "1", "Un", 0);
    assert!(a == b);
    assert!(a != c);
}

#[test]
fn venta_nueva_esta_vacia() {
    let v = Venta::new();
    assert_eq!(v.monto_total.bits, 0);
    assert!(v.productos.is_empty());
}

#[test]
fn sistema_nuevo_y_alta_de_producto() {
    let mut s = Sistema::new(Vec::new(), vec!["Arcor".to_string()]);
    assert_eq!(s.path_prods, RUTA_PRODUCTOS);
    assert_eq!(s.path_proveedores, RUTA_PROVEEDORES);
    assert_eq!(s.proveedores, vec!["Arcor".to_string()]);
    assert!(s.ventas.0.productos.is_empty() && s.ventas.1.productos.is_empty());
    let mut codigos = CodigosProveedores::new();
    codigos.insertar("Arcor".to_string(), Some(5));
    s.agregar(codigos, "42", d(1), d(2), d(3), "Golosina", "Arcor", "Menta", "3", "Un", d(0));
    s.agregar(CodigosProveedores::new(), "43", d(1), d(2), d(3), "Fiambre", "X", "", "250", "Grs", d(7));
    assert_eq!(s.productos.len(), 2);
    assert_eq!(s.productos[0].codigo_de_barras, 42);
    assert_eq!(s.productos[0].proveedores_codigos.entradas().clone(), vec![("Arcor".to_string(), Some(5))]);
    assert!(matches!(s.productos[1].cantidad, Presentacion::Grs(m) if m.bits == 7));
}
